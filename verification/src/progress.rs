//! The playback position in hours, minutes and seconds, and the progress bar.

use vstd::prelude::*;

verus! {

/// The length in seconds of one tick of a timestamp, as a fraction.
#[derive(Clone, Copy, Debug, PartialEq, Eq, Structural)]
pub struct TimeBase {
    pub numer: u32,
    pub denom: u32,
}

/// A time of day-less clock reading: whole hours, minutes below 60 and whole
/// seconds below 60.
#[derive(Clone, Copy, Debug, PartialEq, Eq, Structural)]
pub struct Clock {
    pub hours: u64,
    pub mins: u64,
    pub secs: u64,
}

/// The number of steps of the progress bar.
pub const NUM_STEPS: u64 = 60;

/// The whole seconds that `ts` ticks of `tb` last, as a 64-bit number: the
/// quotient wraps where it does not fit.
pub open spec fn whole_seconds(tb: TimeBase, ts: u64) -> u64 {
    ((ts * tb.numer / tb.denom as int) % 0x1_0000_0000_0000_0000) as u64
}

/// The clock reading of a number of seconds.
pub open spec fn clock_of(seconds: u64) -> Clock {
    Clock { hours: seconds / 3600, mins: (seconds % 3600) / 60, secs: seconds % 60 }
}

/// The step of the progress bar at timestamp `ts` of `dur`: the part played,
/// in sixtieths, rounded down and at most 60; 0 where `dur` is 0. The
/// product `60 * ts` saturates.
pub open spec fn step_of(ts: u64, dur: u64) -> u64 {
    if dur == 0 {
        0
    } else {
        let scaled = if NUM_STEPS * ts > u64::MAX {
            u64::MAX as int
        } else {
            NUM_STEPS * ts
        };
        if scaled / dur as int > NUM_STEPS {
            NUM_STEPS
        } else {
            (scaled / dur as int) as u64
        }
    }
}

/// The bar at step `step`: an opening bracket, `step` filled cells, blanks up
/// to 60 cells, a closing bracket.
pub open spec fn bar_of(step: u64) -> Seq<char> {
    Seq::new(
        (NUM_STEPS + 2) as nat,
        |i: int|
            if i == 0 {
                '['
            } else if i == NUM_STEPS + 1 {
                ']'
            } else if i <= step {
                '\u{25a0}'
            } else {
                ' '
            },
    )
}

/// `symphonia::core::units::TimeBase::calc_time`, of whose result the whole
/// seconds are kept. The function divides `ts * numer` by `denom` exactly
/// and lets the quotient wrap to 64 bits; it does not return where `numer`
/// or `denom` is 0.
#[verifier::external_body]
fn calc_seconds(tb: TimeBase, ts: u64) -> (seconds: u64)
    requires
        tb.numer > 0,
        tb.denom > 0,
    ensures
        seconds == whole_seconds(tb, ts),
{
    symphonia::core::units::TimeBase::new(tb.numer, tb.denom).calc_time(ts).seconds
}

/// Splits a number of seconds into hours, minutes and seconds.
pub fn split_clock(seconds: u64) -> (clock: Clock)
    ensures
        clock == clock_of(seconds),
{
    Clock { hours: seconds / 3600, mins: (seconds % 3600) / 60, secs: seconds % 60 }
}

/// The clock reading at timestamp `ts` in time base `tb`, without the
/// fraction of a second. `None` where the time base has a zero in it.
pub fn clock_at(tb: TimeBase, ts: u64) -> (clock: Option<Clock>)
    ensures
        clock == if tb.numer > 0 && tb.denom > 0 {
            Some(clock_of(whole_seconds(tb, ts)))
        } else {
            None
        },
{
    if tb.numer == 0 || tb.denom == 0 {
        None
    } else {
        Some(split_clock(calc_seconds(tb, ts)))
    }
}

/// The ticks left to play at timestamp `ts` of `dur`: none once `ts` is
/// past `dur`.
pub fn remaining(ts: u64, dur: u64) -> (left: u64)
    ensures
        left == if ts <= dur {
            dur - ts
        } else {
            0
        },
{
    if ts <= dur {
        dur - ts
    } else {
        0
    }
}

/// The step of the progress bar at timestamp `ts` of `dur`.
pub fn progress_step(ts: u64, dur: u64) -> (step: u64)
    ensures
        step == step_of(ts, dur),
        step <= NUM_STEPS,
{
    if dur == 0 {
        return 0;
    }
    let scaled: u64 = match NUM_STEPS.checked_mul(ts) {
        Some(product) => product,
        None => u64::MAX,
    };
    let step = scaled / dur;
    if step > NUM_STEPS {
        NUM_STEPS
    } else {
        step
    }
}

/// The progress bar at timestamp `ts` of `dur`, one `char` for each of its
/// 62 places.
pub fn progress_bar(ts: u64, dur: u64) -> (bar: Vec<char>)
    ensures
        bar@ == bar_of(step_of(ts, dur)),
{
    let step = progress_step(ts, dur);
    let mut bar: Vec<char> = Vec::new();
    bar.push('[');
    let mut i: u64 = 1;
    while i <= NUM_STEPS
        invariant
            1 <= i <= NUM_STEPS + 1,
            bar.len() == i,
            forall|k: int| 0 <= k < i ==> bar[k] == bar_of(step)[k],
        decreases NUM_STEPS + 1 - i,
    {
        bar.push(
            if i <= step {
                '\u{25a0}'
            } else {
                ' '
            },
        );
        i += 1;
    }
    bar.push(']');
    assert(bar@ =~= bar_of(step));
    bar
}

/// A clock reading adds up to the seconds it was split from, with minutes
/// and seconds below 60.
pub proof fn lemma_clock_adds_up(seconds: u64)
    ensures
        clock_of(seconds).hours * 3600 + clock_of(seconds).mins * 60 + clock_of(seconds).secs
            == seconds,
        clock_of(seconds).mins < 60,
        clock_of(seconds).secs < 60,
{
}

/// The bar never goes back: a later timestamp of the same duration has no
/// lower step. It is empty at the start, and full from the end on where 60
/// times the duration fits 64 bits.
pub proof fn lemma_step_monotonic(ts: u64, later: u64, dur: u64)
    requires
        ts <= later,
    ensures
        step_of(ts, dur) <= step_of(later, dur) <= NUM_STEPS,
        step_of(0, dur) == 0,
        dur > 0 && ts >= dur && NUM_STEPS * dur <= u64::MAX ==> step_of(ts, dur) == NUM_STEPS,
{
    if dur > 0 {
        let a = if NUM_STEPS * ts > u64::MAX {
            u64::MAX as int
        } else {
            NUM_STEPS * ts
        };
        let b = if NUM_STEPS * later > u64::MAX {
            u64::MAX as int
        } else {
            NUM_STEPS * later
        };
        assert(a / dur as int <= b / dur as int) by (nonlinear_arith)
            requires
                0 <= a <= b,
                dur > 0,
        ;
        assert(0int / dur as int == 0) by (nonlinear_arith)
            requires
                dur > 0,
        ;
        if ts >= dur && NUM_STEPS * dur <= u64::MAX {
            assert(a / dur as int >= 60) by (nonlinear_arith)
                requires
                    a >= 60 * dur,
                    dur > 0,
            ;
        }
    }
}

} // verus!
