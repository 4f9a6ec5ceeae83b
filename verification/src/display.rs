//! Sinks for decoded audio, and the sink that frames blocks for a spectral
//! analysis.

use vstd::prelude::*;
use crate::control::SignalSpec;
use crate::stft::{
    adjacent_pairs, is_power_of_two, pairs_of, sample_words, words_of, RawSample, StftParams,
};

verus! {

/// Why a sink could not be opened or did not take a block.
#[derive(Clone, Copy, Debug, PartialEq, Eq, Structural)]
pub enum DisplayError {
    GenericError,
}

/// A decoded block as a sink gets it.
#[derive(Clone, Debug, PartialEq, Eq)]
pub struct DecodedBlock {
    /// The number of frames in the block.
    pub frames: usize,
    /// The samples of all channels, interleaved, four bytes each.
    pub samples: Vec<u8>,
}

/// What contracts say of a sink: what it was opened for and what it holds.
pub struct SinkState {
    /// The largest number of samples that a block may have.
    pub room: nat,
    /// The window and the hop with which the sink frames each block; `None`
    /// for a sink that does not frame.
    pub framing: Option<StftParams>,
    /// The raw samples of the last block that the sink kept.
    pub held: Seq<u8>,
}

/// A consumer of decoded blocks.
pub trait Display {
    /// What the sink was opened for and what it holds. A sink that does not
    /// say leaves it open.
    open spec fn state(&self) -> SinkState {
        arbitrary()
    }

    /// Takes one block.
    fn write(&mut self, decoded: &DecodedBlock) -> Result<(), DisplayError>;

    /// Lets out what the sink still holds.
    fn flush(&mut self);
}

/// The number of samples that a sink for `spec` and blocks of up to
/// `duration` frames must hold, or `None` where there is no channel or that
/// many samples of four bytes cannot be addressed.
pub open spec fn sample_capacity(spec: SignalSpec, duration: u64) -> Option<nat> {
    if spec.channels > 0 && duration * spec.channels <= usize::MAX / 4 {
        Some((duration * spec.channels) as nat)
    } else {
        None
    }
}

/// Computes the number of samples that a sink for `spec` and blocks of up to
/// `duration` frames must hold.
pub fn required_capacity(spec: SignalSpec, duration: u64) -> (capacity: Option<usize>)
    ensures
        match capacity {
            Some(n) => sample_capacity(spec, duration) == Some(n as nat),
            None => sample_capacity(spec, duration) is None,
        },
{
    if spec.channels == 0 {
        return None;
    }
    let limit: u64 = (usize::MAX / 4) as u64;
    if duration > limit / (spec.channels as u64) {
        assert(duration * spec.channels > usize::MAX / 4) by (nonlinear_arith)
            requires
                duration > limit / (spec.channels as u64),
                spec.channels > 0,
                limit == usize::MAX / 4,
        ;
        return None;
    }
    assert(duration * spec.channels <= limit) by (nonlinear_arith)
        requires
            duration <= limit / (spec.channels as u64),
            spec.channels > 0,
    ;
    Some((duration * (spec.channels as u64)) as usize)
}

/// The operands of the silent sample: two raw samples of zero bytes.
pub open spec fn silence() -> (RawSample, RawSample) {
    (RawSample(0, 0, 0, 0), RawSample(0, 0, 0, 0))
}

/// The window that a sink opened by `try_open` frames with.
pub const WINDOW_SIZE: usize = 256;

/// The hop that a sink opened by `try_open` frames with.
pub const HOP_SIZE: usize = 128;

/// The framing of a sink opened by `try_open`: a window of 256 samples, a
/// hop of 128, a transform of 256 points.
pub open spec fn default_framing() -> StftParams {
    StftParams { window_size: WINDOW_SIZE, hop_size: HOP_SIZE, fft_size: 256 }
}

/// The state of a sink that was just opened for `spec` and blocks of up to
/// `duration` frames, with framing `params`: it has the room that the
/// capacity asks for and holds nothing.
pub open spec fn opened_for(state: SinkState, spec: SignalSpec, duration: u64, params: StftParams) -> bool {
    &&& sample_capacity(spec, duration) == Some(state.room)
    &&& state.framing == Some(params)
    &&& state.held.len() == 0
}

/// The frames that the raw samples in `bytes` give: the samples are paired
/// with their neighbours, and the pairs are framed.
pub open spec fn framed(params: StftParams, bytes: Seq<u8>) -> Seq<Seq<(RawSample, RawSample)>> {
    params.frames_of(pairs_of(words_of(bytes)), silence())
}

/// The sink that frames each block for a short-time spectral analysis. It
/// keeps the raw samples of the last block and their frames. A frame holds,
/// for each place, the two neighbouring raw samples whose mean is the mono
/// sample at that place, or silence.
pub struct STFTDisplay {
    capacity: usize,
    params: StftParams,
    sample_buf: Vec<u8>,
    frames: Vec<Vec<(RawSample, RawSample)>>,
}

impl STFTDisplay {
    #[verifier::type_invariant]
    spec fn inv(self) -> bool {
        &&& self.params.wf()
        &&& self.capacity <= usize::MAX / 4
        &&& self.frames@.len() == framed(self.params, self.sample_buf@).len()
        &&& forall|k: int|
            0 <= k < self.frames@.len() ==> (#[trigger] self.frames@[k])@ == framed(
                self.params,
                self.sample_buf@,
            )[k]
    }

    /// Opens a sink for `spec` and blocks of up to `duration` frames, with
    /// the given window and hop. Fails where the capacity cannot be had or
    /// the parameters are not valid.
    pub fn with_params(spec: SignalSpec, duration: u64, window_size: usize, hop_size: usize) -> (out:
        Result<STFTDisplay, DisplayError>)
        ensures
            match out {
                Ok(sink) => {
                    &&& sink.state().framing is Some
                    &&& opened_for(sink.state(), spec, duration, sink.state().framing->0)
                    &&& sink.state().framing->0.wf()
                    &&& sink.state().framing->0.window_size == window_size
                    &&& sink.state().framing->0.hop_size == hop_size
                },
                Err(e) => {
                    &&& e == DisplayError::GenericError
                    &&& (sample_capacity(spec, duration) is None || hop_size == 0 || forall|q: nat|
                        is_power_of_two(q) && q >= window_size ==> q > usize::MAX)
                },
            },
    {
        match (required_capacity(spec, duration), StftParams::new(window_size, hop_size)) {
            (Some(capacity), Some(params)) => Ok(
                STFTDisplay { capacity, params, sample_buf: Vec::new(), frames: Vec::new() },
            ),
            _ => Err(DisplayError::GenericError),
        }
    }

    /// Opens a sink for `spec` and blocks of up to `duration` frames, with a
    /// window of 256 samples and a hop of 128. Fails exactly where there is
    /// no channel or the capacity cannot be had.
    pub fn try_open(spec: SignalSpec, duration: u64) -> (out: Result<STFTDisplay, DisplayError>)
        ensures
            match out {
                Ok(sink) => opened_for(sink.state(), spec, duration, default_framing()),
                Err(e) => e == DisplayError::GenericError && sample_capacity(spec, duration)
                    is None,
            },
    {
        proof {
            reveal_with_fuel(is_power_of_two, 10);
            assert(is_power_of_two(256));
        }
        STFTDisplay::with_params(spec, duration, WINDOW_SIZE, HOP_SIZE)
    }

    /// The frames of the last block that was kept, in the order of their hop
    /// positions; none before the first block.
    pub fn frames(&self) -> (out: &Vec<Vec<(RawSample, RawSample)>>)
        ensures
            self.state().framing is Some,
            out@.len() == framed(self.state().framing->0, self.state().held).len(),
            forall|k: int|
                0 <= k < out@.len() ==> (#[trigger] out@[k])@ == framed(
                    self.state().framing->0,
                    self.state().held,
                )[k],
    {
        proof {
            use_type_invariant(self);
        }
        &self.frames
    }

    /// The framing parameters.
    pub fn parameters(&self) -> (out: StftParams)
        ensures
            self.state().framing == Some(out),
            out.wf(),
    {
        proof {
            use_type_invariant(self);
        }
        self.params
    }

    /// Frames the raw samples in `bytes`: splits them into samples, pairs
    /// each sample with its neighbour, and frames the pairs.
    pub fn process(&self, bytes: &[u8]) -> (out: Vec<Vec<(RawSample, RawSample)>>)
        ensures
            self.state().framing is Some,
            out@.len() == framed(self.state().framing->0, bytes@).len(),
            forall|k: int|
                0 <= k < out@.len() ==> (#[trigger] out@[k])@ == framed(
                    self.state().framing->0,
                    bytes@,
                )[k],
    {
        proof {
            use_type_invariant(self);
        }
        let words = sample_words(bytes);
        let pairs = adjacent_pairs(words.as_slice());
        let zero = (RawSample(0, 0, 0, 0), RawSample(0, 0, 0, 0));
        self.params.frames(pairs.as_slice(), zero)
    }
}

impl Display for STFTDisplay {
    closed spec fn state(&self) -> SinkState {
        SinkState {
            room: self.capacity as nat,
            framing: Some(self.params),
            held: self.sample_buf@,
        }
    }

    /// Takes one block: keeps its samples and frames them. An empty block is
    /// passed over. A block with more samples than the sink was opened for
    /// is refused, and the sink stays as it was.
    fn write(&mut self, decoded: &DecodedBlock) -> (out: Result<(), DisplayError>)
        ensures
            final(self).state().room == old(self).state().room,
            final(self).state().framing == old(self).state().framing,
            out is Err <==> decoded.frames != 0 && decoded.samples@.len() > 4 * old(
                self,
            ).state().room,
            out matches Err(e) ==> e == DisplayError::GenericError,
            final(self).state().held == if decoded.frames != 0 && out is Ok {
                decoded.samples@
            } else {
                old(self).state().held
            },
    {
        proof {
            use_type_invariant(&*self);
        }
        if decoded.frames == 0 {
            return Ok(());
        }
        if decoded.samples.len() / 4 > self.capacity || (decoded.samples.len() / 4
            == self.capacity && decoded.samples.len() % 4 != 0) {
            return Err(DisplayError::GenericError);
        }
        let frames = self.process(decoded.samples.as_slice());
        *self = STFTDisplay {
            capacity: self.capacity,
            params: self.params,
            sample_buf: decoded.samples.clone(),
            frames,
        };
        Ok(())
    }

    /// Does nothing: the sink holds nothing back.
    fn flush(&mut self)
        ensures
            final(self).state() == old(self).state(),
    {
    }
}

/// Opens the analysis sink for `spec` and blocks of up to `duration` frames,
/// as a sink like any other: with the room that the capacity asks for, a
/// window of 256 samples and a hop of 128, and nothing held. Fails exactly
/// where there is no channel or the capacity cannot be had.
pub fn try_open(spec: SignalSpec, duration: u64) -> (out: Result<Box<dyn Display>, DisplayError>)
    ensures
        match out {
            Ok(sink) => opened_for(sink.state(), spec, duration, default_framing()),
            Err(e) => e == DisplayError::GenericError && sample_capacity(spec, duration) is None,
        },
{
    match STFTDisplay::try_open(spec, duration) {
        Ok(sink) => Ok(Box::new(sink)),
        Err(e) => Err(e),
    }
}

} // verus!
