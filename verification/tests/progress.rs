use spectral_play::progress::{
    clock_at, progress_bar, progress_step, remaining, split_clock, Clock, TimeBase, NUM_STEPS,
};

#[test]
fn clock_splits_seconds() {
    assert_eq!(split_clock(0), Clock { hours: 0, mins: 0, secs: 0 });
    assert_eq!(split_clock(59), Clock { hours: 0, mins: 0, secs: 59 });
    assert_eq!(split_clock(60), Clock { hours: 0, mins: 1, secs: 0 });
    assert_eq!(split_clock(3599), Clock { hours: 0, mins: 59, secs: 59 });
    assert_eq!(split_clock(3600), Clock { hours: 1, mins: 0, secs: 0 });
    assert_eq!(split_clock(3723), Clock { hours: 1, mins: 2, secs: 3 });
    assert_eq!(
        split_clock(u64::MAX),
        Clock { hours: 5_124_095_576_030_431, mins: 0, secs: 15 }
    );
}

#[test]
fn clock_adds_up() {
    for seconds in [0u64, 1, 61, 3599, 3600, 86_399, 1_000_000_007] {
        let c = split_clock(seconds);
        assert_eq!(c.hours * 3600 + c.mins * 60 + c.secs, seconds);
        assert!(c.mins < 60 && c.secs < 60);
    }
}

#[test]
fn clock_at_uses_the_time_base() {
    let tb = TimeBase { numer: 1, denom: 320 };
    assert_eq!(clock_at(tb, 0), Some(Clock { hours: 0, mins: 0, secs: 0 }));
    assert_eq!(clock_at(tb, 12_345), Some(Clock { hours: 0, mins: 0, secs: 38 }));
    assert_eq!(clock_at(tb, 319), Some(Clock { hours: 0, mins: 0, secs: 0 }));
    assert_eq!(clock_at(tb, 320), Some(Clock { hours: 0, mins: 0, secs: 1 }));
    let cd = TimeBase { numer: 1, denom: 44_100 };
    assert_eq!(clock_at(cd, 441_000), Some(Clock { hours: 0, mins: 0, secs: 10 }));
    assert_eq!(clock_at(cd, 44_100 * 3_725), Some(Clock { hours: 1, mins: 2, secs: 5 }));
}

#[test]
fn clock_at_large_timestamps() {
    let tb = TimeBase { numer: 1, denom: 320 };
    assert_eq!(clock_at(tb, 0x0f_ffff_ffff_ffff), Some(split_clock(14_073_748_835_532)));
    assert_eq!(clock_at(tb, 0x10_0000_0000_0001), Some(split_clock(14_073_748_835_532)));
    assert_eq!(clock_at(tb, u64::MAX), Some(split_clock(57_646_075_230_342_348)));
    let third = TimeBase { numer: 1, denom: 3 };
    assert_eq!(clock_at(third, (1 << 52) - 1), Some(split_clock(((1u64 << 52) - 1) / 3)));
    assert_eq!(clock_at(third, (1 << 52) + 2), Some(split_clock(((1u64 << 52) + 2) / 3)));
}

#[test]
fn clock_at_wraps_on_overflow() {
    let tb = TimeBase { numer: 320, denom: 1 };
    let wrapped = ((u64::MAX as u128 * 320) % (1u128 << 64)) as u64;
    assert_eq!(clock_at(tb, u64::MAX), Some(split_clock(wrapped)));
    assert_eq!(clock_at(tb, 2), Some(split_clock(640)));
}

#[test]
fn clock_at_refuses_a_zero_time_base() {
    assert_eq!(clock_at(TimeBase { numer: 0, denom: 1 }, 5), None);
    assert_eq!(clock_at(TimeBase { numer: 1, denom: 0 }, 5), None);
    assert_eq!(clock_at(TimeBase { numer: 0, denom: 0 }, 5), None);
}

#[test]
fn remaining_saturates() {
    assert_eq!(remaining(3, 10), 7);
    assert_eq!(remaining(10, 10), 0);
    assert_eq!(remaining(11, 10), 0);
    assert_eq!(remaining(0, u64::MAX), u64::MAX);
}

#[test]
fn progress_step_values() {
    assert_eq!(NUM_STEPS, 60);
    assert_eq!(progress_step(0, 100), 0);
    assert_eq!(progress_step(1, 100), 0);
    assert_eq!(progress_step(2, 100), 1);
    assert_eq!(progress_step(50, 100), 30);
    assert_eq!(progress_step(99, 100), 59);
    assert_eq!(progress_step(100, 100), 60);
    assert_eq!(progress_step(1000, 100), 60);
    assert_eq!(progress_step(5, 0), 0);
    assert_eq!(progress_step(0, 0), 0);
}

#[test]
fn progress_step_saturates_the_product() {
    assert_eq!(progress_step(u64::MAX, u64::MAX), 1);
    assert_eq!(progress_step(u64::MAX, 1), 60);
    assert_eq!(progress_step(u64::MAX / 60, u64::MAX / 60), 60);
    assert_eq!(progress_step(u64::MAX / 60 + 1, u64::MAX), 1);
}

#[test]
fn progress_step_never_goes_back() {
    let mut last = 0;
    for ts in 0..=1200u64 {
        let step = progress_step(ts, 1000);
        assert!(step >= last && step <= 60);
        last = step;
    }
    assert_eq!(last, 60);
}

#[test]
fn progress_bar_cells() {
    let empty: String = progress_bar(0, 100).into_iter().collect();
    assert_eq!(empty, format!("[{:<60}]", ""));
    let half: String = progress_bar(50, 100).into_iter().collect();
    assert_eq!(half, format!("[{:<60}]", "\u{25a0}".repeat(30)));
    let full: String = progress_bar(100, 100).into_iter().collect();
    assert_eq!(full, format!("[{}]", "\u{25a0}".repeat(60)));
    assert_eq!(progress_bar(7, 0).len(), 62);
}

#[test]
fn progress_bar_matches_the_step() {
    for ts in [0u64, 1, 59, 60, 61, 119, 3599, 3600, 9999] {
        let step = progress_step(ts, 3600) as usize;
        let bar: String = progress_bar(ts, 3600).into_iter().collect();
        assert_eq!(bar, format!("[{:<60}]", "\u{25a0}".repeat(step)));
    }
}

#[test]
fn clock_at_is_exact_division() {
    let mut state: u64 = 0x9e37_79b9_7f4a_7c15;
    let mut next = move || {
        state ^= state << 13;
        state ^= state >> 7;
        state ^= state << 17;
        state
    };
    for round in 0..20_000u32 {
        let numer = (next() % 1000 + 1) as u32;
        let denom = match round % 3 {
            0 => (next() % 100_000 + 1) as u32,
            1 => (next() as u32).max(1),
            _ => 44_100,
        };
        let ts = match round % 4 {
            0 => next() >> 30,
            1 => next() >> 12,
            2 => (next() % 1000) * denom as u64 + (next() % 3).wrapping_sub(1),
            _ => next(),
        };
        let exact = ((ts as u128 * numer as u128 / denom as u128) % (1u128 << 64)) as u64;
        assert_eq!(clock_at(TimeBase { numer, denom }, ts), Some(split_clock(exact)));
    }
}
