use spectral_play::stft::{adjacent_pairs, next_power_of_two, sample_words, RawSample, StftParams};

#[test]
fn next_power_of_two_values() {
    assert_eq!(next_power_of_two(0), Some(1));
    assert_eq!(next_power_of_two(1), Some(1));
    assert_eq!(next_power_of_two(2), Some(2));
    assert_eq!(next_power_of_two(3), Some(4));
    assert_eq!(next_power_of_two(255), Some(256));
    assert_eq!(next_power_of_two(256), Some(256));
    assert_eq!(next_power_of_two(257), Some(512));
    assert_eq!(next_power_of_two(1000), Some(1024));
}

#[test]
fn next_power_of_two_agrees_with_std() {
    for n in 0..5000usize {
        assert_eq!(next_power_of_two(n), n.checked_next_power_of_two());
    }
}

#[test]
fn next_power_of_two_at_the_limit() {
    let top = 1usize << (usize::BITS - 1);
    assert_eq!(next_power_of_two(top), Some(top));
    assert_eq!(next_power_of_two(top - 1), Some(top));
    assert_eq!(next_power_of_two(top + 1), None);
    assert_eq!(next_power_of_two(usize::MAX), None);
}

#[test]
fn params_are_validated() {
    assert_eq!(
        StftParams::new(256, 128),
        Some(StftParams { window_size: 256, hop_size: 128, fft_size: 256 })
    );
    assert_eq!(
        StftParams::new(300, 7),
        Some(StftParams { window_size: 300, hop_size: 7, fft_size: 512 })
    );
    assert_eq!(StftParams::new(0, 1), Some(StftParams { window_size: 0, hop_size: 1, fft_size: 1 }));
    assert_eq!(StftParams::new(256, 0), None);
    assert_eq!(StftParams::new(usize::MAX, 128), None);
}

#[test]
fn frame_count_formula() {
    let p = StftParams::new(256, 128).unwrap();
    assert_eq!(p.frame_count(0), 0);
    assert_eq!(p.frame_count(1), 1);
    assert_eq!(p.frame_count(128), 1);
    assert_eq!(p.frame_count(129), 2);
    assert_eq!(p.frame_count(256), 2);
    assert_eq!(p.frame_count(1000), 8);
    let q = StftParams::new(4, 1).unwrap();
    assert_eq!(q.frame_count(usize::MAX), usize::MAX);
    let r = StftParams::new(4, usize::MAX).unwrap();
    assert_eq!(r.frame_count(usize::MAX), 1);
}

#[test]
fn frame_count_matches_stepping() {
    for hop in 1..20usize {
        let p = StftParams::new(8, hop).unwrap();
        for n in 0..200usize {
            assert_eq!(p.frame_count(n), (0..n).step_by(hop).count());
        }
    }
}

#[test]
fn frame_is_zero_filled_and_padded() {
    let p = StftParams::new(3, 2).unwrap();
    assert_eq!(p.fft_size, 4);
    let signal = [1, 2, 3, 4, 5];
    assert_eq!(p.frame(&signal, 0, 0), vec![1, 2, 3, 0]);
    assert_eq!(p.frame(&signal, 2, 0), vec![3, 4, 5, 0]);
    assert_eq!(p.frame(&signal, 4, 0), vec![5, 0, 0, 0]);
    assert_eq!(p.frame(&signal, 5, -1), vec![-1, -1, -1, -1]);
    assert_eq!(p.frame(&signal, usize::MAX, 9), vec![9, 9, 9, 9]);
}

#[test]
fn frames_follow_the_hops() {
    let p = StftParams::new(3, 2).unwrap();
    let signal = [1, 2, 3, 4, 5];
    assert_eq!(
        p.frames(&signal, 0),
        vec![vec![1, 2, 3, 0], vec![3, 4, 5, 0], vec![5, 0, 0, 0]]
    );
    let empty: [i32; 0] = [];
    assert_eq!(p.frames(&empty, 0), Vec::<Vec<i32>>::new());
    assert_eq!(p.frames(&[7], 0), vec![vec![7, 0, 0, 0]]);
}

#[test]
fn frames_with_hop_longer_than_window_skip_samples() {
    let p = StftParams::new(2, 3).unwrap();
    let signal = [1, 2, 3, 4, 5, 6, 7];
    assert_eq!(p.frames(&signal, 0), vec![vec![1, 2], vec![4, 5], vec![7, 0]]);
}

#[test]
fn frames_shape_for_default_parameters() {
    let p = StftParams::new(256, 128).unwrap();
    for n in [1usize, 2, 127, 128, 129, 255, 256, 257, 1000, 4096] {
        let signal: Vec<u32> = (0..n as u32).collect();
        let frames = p.frames(&signal, 0);
        assert_eq!(frames.len(), (n - 1) / 128 + 1);
        for frame in &frames {
            assert_eq!(frame.len(), 256);
        }
    }
}

#[test]
fn every_sample_is_in_its_frame() {
    let p = StftParams::new(8, 5).unwrap();
    let signal: Vec<u32> = (100..163).collect();
    let frames = p.frames(&signal, 0);
    for (i, sample) in signal.iter().enumerate() {
        assert_eq!(frames[i / 5][i % 5], *sample);
    }
}

#[test]
fn sample_words_groups_four_bytes() {
    assert_eq!(sample_words(&[]), vec![]);
    assert_eq!(sample_words(&[1, 2, 3]), vec![]);
    assert_eq!(sample_words(&[1, 2, 3, 4]), vec![RawSample(1, 2, 3, 4)]);
    assert_eq!(
        sample_words(&[1, 2, 3, 4, 5, 6, 7, 8, 9, 10]),
        vec![RawSample(1, 2, 3, 4), RawSample(5, 6, 7, 8)]
    );
}

#[test]
fn adjacent_pairs_overlap() {
    let none: [u8; 0] = [];
    assert_eq!(adjacent_pairs(&none), vec![]);
    assert_eq!(adjacent_pairs(&[1]), vec![]);
    assert_eq!(adjacent_pairs(&[1, 2]), vec![(1, 2)]);
    assert_eq!(adjacent_pairs(&[1, 2, 3, 4]), vec![(1, 2), (2, 3), (3, 4)]);
}

#[test]
fn frames_of_floats_keep_their_values() {
    let p = StftParams::new(2, 1).unwrap();
    let signal = [0.5f32, -1.25, 3.0];
    assert_eq!(
        p.frames(&signal, 0.0),
        vec![vec![0.5, -1.25], vec![-1.25, 3.0], vec![3.0, 0.0]]
    );
}
