//! Framing for a short-time spectral analysis: the hop positions over a
//! signal, and the window-sized, zero-filled, zero-padded frame at each.
//!
//! Samples are opaque here: the functions are generic in the sample type and
//! move samples without computing on them.

use vstd::prelude::*;

verus! {

/// Whether `n` is a power of two.
pub open spec fn is_power_of_two(n: nat) -> bool
    decreases n,
{
    n == 1 || (n > 1 && n % 2 == 0 && is_power_of_two(n / 2))
}

/// Whether `p` is the least power of two that is not below `n`.
pub open spec fn is_next_power_of_two(p: nat, n: nat) -> bool {
    &&& is_power_of_two(p)
    &&& p >= n
    &&& forall|q: nat| is_power_of_two(q) && q >= n ==> q >= p
}

/// The number of hop positions over a signal of `n` samples: the positions
/// `0, hop, 2 * hop, ..` below `n`.
pub open spec fn frame_count(n: nat, hop: nat) -> nat {
    if n == 0 {
        0
    } else {
        ((n - 1) / hop as int + 1) as nat
    }
}

/// Of two powers of two, the larger is at least twice the smaller.
pub proof fn lemma_power_of_two_gap(p: nat, q: nat)
    requires
        is_power_of_two(p),
        is_power_of_two(q),
        p < q,
    ensures
        2 * p <= q,
    decreases q,
{
    if p > 1 {
        lemma_power_of_two_gap(p / 2, q / 2);
    }
}

/// The least power of two that is not below `n`, or `None` where it does not
/// fit the machine word.
pub fn next_power_of_two(n: usize) -> (found: Option<usize>)
    ensures
        match found {
            Some(p) => is_next_power_of_two(p as nat, n as nat),
            None => forall|q: nat| is_power_of_two(q) && q >= n ==> q > usize::MAX,
        },
{
    let mut p: usize = 1;
    while p < n
        invariant
            p >= 1,
            is_power_of_two(p as nat),
            forall|q: nat| is_power_of_two(q) && q >= n ==> q >= p,
        decreases usize::MAX - p,
    {
        if p > usize::MAX / 2 {
            assert forall|q: nat| is_power_of_two(q) && q >= n implies q > usize::MAX by {
                lemma_power_of_two_gap(p as nat, q);
            }
            return None;
        }
        assert forall|q: nat| is_power_of_two(q) && q >= n implies q >= 2 * p by {
            lemma_power_of_two_gap(p as nat, q);
        }
        assert(is_power_of_two((2 * p) as nat));
        p = 2 * p;
    }
    Some(p)
}

/// The framing parameters of an analysis.
#[derive(Clone, Copy, Debug, PartialEq, Eq, Structural)]
pub struct StftParams {
    /// The number of signal samples in a frame.
    pub window_size: usize,
    /// The distance between the starts of two frames.
    pub hop_size: usize,
    /// The length of a frame after zero-padding: the transform size.
    pub fft_size: usize,
}

impl StftParams {
    /// The hop is positive and the transform size is the least power of two
    /// that holds a window.
    pub open spec fn wf(self) -> bool {
        self.hop_size > 0 && is_next_power_of_two(self.fft_size as nat, self.window_size as nat)
    }

    /// Parameters for the given window and hop. `None` where the hop is 0,
    /// or where no power of two that holds the window fits the machine word.
    pub fn new(window_size: usize, hop_size: usize) -> (made: Option<StftParams>)
        ensures
            match made {
                Some(p) => p.wf() && p.window_size == window_size && p.hop_size == hop_size,
                None => hop_size == 0 || forall|q: nat|
                    is_power_of_two(q) && q >= window_size ==> q > usize::MAX,
            },
    {
        if hop_size == 0 {
            return None;
        }
        match next_power_of_two(window_size) {
            Some(fft_size) => Some(StftParams { window_size, hop_size, fft_size }),
            None => None,
        }
    }

    /// The frame that starts at sample `start` of `signal`: the samples of
    /// the window, `zero` where the window reaches past the end of the
    /// signal, and `zero` from the end of the window up to the transform
    /// size.
    pub open spec fn frame_at<T>(self, signal: Seq<T>, start: int, zero: T) -> Seq<T> {
        Seq::new(
            self.fft_size as nat,
            |j: int|
                if j < self.window_size && start + j < signal.len() {
                    signal[start + j]
                } else {
                    zero
                },
        )
    }

    /// The frames of `signal`, one for each hop position.
    pub open spec fn frames_of<T>(self, signal: Seq<T>, zero: T) -> Seq<Seq<T>> {
        Seq::new(
            frame_count(signal.len(), self.hop_size as nat),
            |k: int| self.frame_at(signal, k * self.hop_size, zero),
        )
    }

    /// The number of frames that a signal of `n` samples gives.
    pub fn frame_count(&self, n: usize) -> (count: usize)
        requires
            self.wf(),
        ensures
            count == frame_count(n as nat, self.hop_size as nat),
    {
        if n == 0 {
            0
        } else {
            (n - 1) / self.hop_size + 1
        }
    }

    /// The frame that starts at sample `start` of `signal`.
    pub fn frame<T: Copy>(&self, signal: &[T], start: usize, zero: T) -> (out: Vec<T>)
        requires
            self.wf(),
        ensures
            out@ == self.frame_at(signal@, start as int, zero),
    {
        let mut out: Vec<T> = Vec::new();
        let mut j: usize = 0;
        while j < self.fft_size
            invariant
                j <= self.fft_size,
                out.len() == j,
                forall|i: int|
                    0 <= i < j ==> out[i] == if i < self.window_size && start + i < signal.len() {
                        signal[start + i]
                    } else {
                        zero
                    },
            decreases self.fft_size - j,
        {
            let inside = j < self.window_size && start < signal.len() && j < signal.len() - start;
            out.push(
                if inside {
                    signal[start + j]
                } else {
                    zero
                },
            );
            j += 1;
        }
        assert(out@ =~= self.frame_at(signal@, start as int, zero));
        out
    }

    /// The frames of `signal`, in the order of their hop positions.
    pub fn frames<T: Copy>(&self, signal: &[T], zero: T) -> (out: Vec<Vec<T>>)
        requires
            self.wf(),
        ensures
            out.len() == self.frames_of(signal@, zero).len(),
            forall|k: int| 0 <= k < out.len() ==> out[k]@ == self.frames_of(signal@, zero)[k],
    {
        let count = self.frame_count(signal.len());
        let mut out: Vec<Vec<T>> = Vec::new();
        let mut k: usize = 0;
        let mut start: usize = 0;
        while k < count
            invariant
                self.wf(),
                count == frame_count(signal@.len(), self.hop_size as nat),
                k <= count,
                out.len() == k,
                k < count ==> start == k * self.hop_size,
                forall|i: int|
                    0 <= i < k ==> out[i]@ == self.frame_at(signal@, i * self.hop_size, zero),
            decreases count - k,
        {
            out.push(self.frame(signal, start, zero));
            k += 1;
            if k < count {
                assert(k * self.hop_size <= signal.len() - 1 && k * self.hop_size == (k - 1)
                    * self.hop_size + self.hop_size) by (nonlinear_arith)
                    requires
                        k <= (signal.len() - 1) / self.hop_size as int,
                        signal.len() > 0,
                        self.hop_size > 0,
                ;
                start = start + self.hop_size;
            }
        }
        out
    }
}

/// Every frame has the transform size, and a signal of `n >= 1` samples
/// gives `(n - 1) / hop + 1` frames, an empty one none.
pub proof fn lemma_frames_shape<T>(params: StftParams, signal: Seq<T>, zero: T)
    requires
        params.wf(),
    ensures
        params.frames_of(signal, zero).len() == if signal.len() >= 1 {
            (signal.len() - 1) / params.hop_size as int + 1
        } else {
            0
        },
        forall|k: int|
            0 <= k < params.frames_of(signal, zero).len() ==> (#[trigger] params.frames_of(
                signal,
                zero,
            )[k]).len() == params.fft_size,
        is_next_power_of_two(params.fft_size as nat, params.window_size as nat),
{
}

/// Where the window is at least as long as the hop, no sample is lost:
/// sample `i` stands in frame `i / hop` at place `i % hop`.
pub proof fn lemma_frames_cover<T>(params: StftParams, signal: Seq<T>, zero: T, i: int)
    requires
        params.wf(),
        params.window_size >= params.hop_size,
        0 <= i < signal.len(),
    ensures
        0 <= i / (params.hop_size as int) < params.frames_of(signal, zero).len(),
        0 <= i % (params.hop_size as int) < params.fft_size,
        params.frames_of(signal, zero)[i / (params.hop_size as int)][i % (params.hop_size as int)]
            == signal[i],
{
    let h = params.hop_size as int;
    let n = signal.len() as int;
    assert(0 <= i / h <= (n - 1) / h && 0 <= i % h < h && (i / h) * h + i % h == i)
        by (nonlinear_arith)
        requires
            0 <= i < n,
            h > 0,
    ;
}

/// The four bytes of one raw sample, in the order in which they stand in
/// memory.
#[derive(Clone, Copy, Debug, PartialEq, Eq, Structural)]
pub struct RawSample(pub u8, pub u8, pub u8, pub u8);

/// The raw samples that `bytes` holds: its 4-byte groups, in order. Up to 3
/// bytes at the end that make no group are left out.
pub open spec fn words_of(bytes: Seq<u8>) -> Seq<RawSample> {
    Seq::new(
        (bytes.len() / 4) as nat,
        |i: int| RawSample(bytes[4 * i], bytes[4 * i + 1], bytes[4 * i + 2], bytes[4 * i + 3]),
    )
}

/// Each item but the last, together with the one that follows it, in order.
pub open spec fn pairs_of<T>(items: Seq<T>) -> Seq<(T, T)> {
    Seq::new(
        if items.len() == 0 {
            0
        } else {
            (items.len() - 1) as nat
        },
        |i: int| (items[i], items[i + 1]),
    )
}

/// Splits `bytes` into raw samples.
pub fn sample_words(bytes: &[u8]) -> (words: Vec<RawSample>)
    ensures
        words@ == words_of(bytes@),
{
    let mut words: Vec<RawSample> = Vec::new();
    let n: usize = bytes.len() / 4;
    let mut i: usize = 0;
    while i < n
        invariant
            n == bytes.len() / 4,
            i <= n,
            words.len() == i,
            forall|k: int| 0 <= k < i ==> words[k] == words_of(bytes@)[k],
        decreases n - i,
    {
        words.push(RawSample(bytes[4 * i], bytes[4 * i + 1], bytes[4 * i + 2], bytes[4 * i + 3]));
        i += 1;
    }
    assert(words@ =~= words_of(bytes@));
    words
}

/// Pairs each item but the last with the one that follows it: the operands
/// of a down-mix that averages neighbours.
pub fn adjacent_pairs<T: Copy>(items: &[T]) -> (pairs: Vec<(T, T)>)
    ensures
        pairs@ == pairs_of(items@),
{
    let mut pairs: Vec<(T, T)> = Vec::new();
    if items.len() == 0 {
        assert(pairs@ =~= pairs_of(items@));
        return pairs;
    }
    let mut i: usize = 1;
    while i < items.len()
        invariant
            1 <= i <= items.len(),
            pairs.len() == i - 1,
            forall|k: int| 0 <= k < pairs.len() ==> pairs[k] == (items[k], items[k + 1]),
        decreases items.len() - i,
    {
        pairs.push((items[i - 1], items[i]));
        i += 1;
    }
    assert(pairs@ =~= pairs_of(items@));
    pairs
}

} // verus!
