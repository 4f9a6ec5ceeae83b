use spectral_play::control::SignalSpec;
use spectral_play::display::{
    required_capacity, try_open, DecodedBlock, Display, DisplayError, STFTDisplay, HOP_SIZE,
    WINDOW_SIZE,
};
use spectral_play::stft::{RawSample, StftParams};

fn stereo() -> SignalSpec {
    SignalSpec { rate: 44100, channels: 2 }
}

fn bytes_of(samples: &[f32]) -> Vec<u8> {
    let mut out = Vec::new();
    for s in samples {
        out.extend_from_slice(&s.to_ne_bytes());
    }
    out
}

fn word(sample: f32) -> RawSample {
    let b = sample.to_ne_bytes();
    RawSample(b[0], b[1], b[2], b[3])
}

fn value(word: RawSample) -> f32 {
    f32::from_ne_bytes([word.0, word.1, word.2, word.3])
}

#[test]
fn default_parameters() {
    assert_eq!(WINDOW_SIZE, 256);
    assert_eq!(HOP_SIZE, 128);
    let sink = STFTDisplay::try_open(stereo(), 1152).unwrap();
    assert_eq!(
        sink.parameters(),
        StftParams { window_size: 256, hop_size: 128, fft_size: 256 }
    );
    assert!(sink.frames().is_empty());
}

#[test]
fn try_open_needs_a_channel() {
    let none = SignalSpec { rate: 44100, channels: 0 };
    assert!(matches!(try_open(none, 1152), Err(DisplayError::GenericError)));
    assert!(matches!(STFTDisplay::try_open(none, 0), Err(DisplayError::GenericError)));
}

#[test]
fn try_open_refuses_a_capacity_that_cannot_be_had() {
    assert!(matches!(try_open(stereo(), u64::MAX), Err(DisplayError::GenericError)));
    let most = (usize::MAX / 4) as u64;
    let mono = SignalSpec { rate: 1, channels: 1 };
    assert!(try_open(mono, most).is_ok());
    assert!(matches!(try_open(mono, most + 1), Err(DisplayError::GenericError)));
    assert!(try_open(stereo(), most / 2).is_ok());
    assert!(matches!(try_open(stereo(), most / 2 + 1), Err(DisplayError::GenericError)));
    assert!(try_open(stereo(), 0).is_ok());
    assert!(STFTDisplay::try_open(mono, most).is_ok());
    assert!(matches!(STFTDisplay::try_open(mono, most + 1), Err(DisplayError::GenericError)));
    assert_eq!(required_capacity(mono, most), Some(usize::MAX / 4));
    assert_eq!(required_capacity(mono, most + 1), None);
    assert_eq!(required_capacity(stereo(), 1152), Some(2304));
    assert_eq!(required_capacity(SignalSpec { rate: 1, channels: 0 }, 0), None);
}

#[test]
fn with_params_validates_the_parameters() {
    assert!(STFTDisplay::with_params(stereo(), 16, 8, 4).is_ok());
    assert!(matches!(
        STFTDisplay::with_params(stereo(), 16, 8, 0),
        Err(DisplayError::GenericError)
    ));
    assert!(matches!(
        STFTDisplay::with_params(stereo(), 16, usize::MAX, 4),
        Err(DisplayError::GenericError)
    ));
    let sink = STFTDisplay::with_params(stereo(), 16, 5, 3).unwrap();
    assert_eq!(sink.parameters(), StftParams { window_size: 5, hop_size: 3, fft_size: 8 });
}

#[test]
fn write_frames_the_block() {
    let mut sink = STFTDisplay::with_params(stereo(), 3, 2, 2).unwrap();
    let samples = [1.0f32, 2.0, 3.0, 4.0, 5.0, 6.0];
    let block = DecodedBlock { frames: 3, samples: bytes_of(&samples) };
    assert_eq!(sink.write(&block), Ok(()));
    let silence = (RawSample(0, 0, 0, 0), RawSample(0, 0, 0, 0));
    let pair = |a: f32, b: f32| (word(a), word(b));
    assert_eq!(
        sink.frames(),
        &vec![
            vec![pair(1.0, 2.0), pair(2.0, 3.0)],
            vec![pair(3.0, 4.0), pair(4.0, 5.0)],
            vec![pair(5.0, 6.0), silence],
        ]
    );
}

#[test]
fn write_passes_over_an_empty_block() {
    let mut sink = STFTDisplay::with_params(stereo(), 3, 2, 2).unwrap();
    let block = DecodedBlock { frames: 1, samples: bytes_of(&[1.0, 2.0]) };
    assert_eq!(sink.write(&block), Ok(()));
    let before = sink.frames().clone();
    assert_eq!(before.len(), 1);
    let empty = DecodedBlock { frames: 0, samples: bytes_of(&[9.0, 9.0, 9.0, 9.0]) };
    assert_eq!(sink.write(&empty), Ok(()));
    assert_eq!(sink.frames(), &before);
}

#[test]
fn write_refuses_a_block_beyond_capacity() {
    let mut sink = STFTDisplay::with_params(stereo(), 2, 2, 2).unwrap();
    let fits = DecodedBlock { frames: 2, samples: bytes_of(&[1.0, 2.0, 3.0, 4.0]) };
    assert_eq!(sink.write(&fits), Ok(()));
    let before = sink.frames().clone();
    let too_long = DecodedBlock { frames: 3, samples: bytes_of(&[1.0, 2.0, 3.0, 4.0, 5.0]) };
    assert_eq!(sink.write(&too_long), Err(DisplayError::GenericError));
    assert_eq!(sink.frames(), &before);
    let mut odd = bytes_of(&[1.0, 2.0, 3.0, 4.0]);
    odd.push(0);
    assert_eq!(
        sink.write(&DecodedBlock { frames: 2, samples: odd }),
        Err(DisplayError::GenericError)
    );
}

#[test]
fn write_replaces_the_last_analysis() {
    let mut sink = STFTDisplay::with_params(stereo(), 4, 2, 2).unwrap();
    sink.write(&DecodedBlock { frames: 4, samples: bytes_of(&[1.0; 8]) }).unwrap();
    assert_eq!(sink.frames().len(), 4);
    sink.write(&DecodedBlock { frames: 1, samples: bytes_of(&[1.0, 2.0]) }).unwrap();
    assert_eq!(sink.frames().len(), 1);
    sink.write(&DecodedBlock { frames: 1, samples: bytes_of(&[1.0]) }).unwrap();
    assert_eq!(sink.frames().len(), 0);
}

#[test]
fn flush_changes_nothing() {
    let mut sink = STFTDisplay::with_params(stereo(), 4, 2, 2).unwrap();
    sink.write(&DecodedBlock { frames: 2, samples: bytes_of(&[1.0, 2.0, 3.0, 4.0]) }).unwrap();
    let before = sink.frames().clone();
    sink.flush();
    assert_eq!(sink.frames(), &before);
    assert_eq!(sink.parameters(), StftParams { window_size: 2, hop_size: 2, fft_size: 2 });
}

#[test]
fn process_shape_for_default_parameters() {
    let sink = STFTDisplay::try_open(stereo(), 1152).unwrap();
    let samples: Vec<f32> = (0..2304).map(|i| i as f32).collect();
    let frames = sink.process(&bytes_of(&samples));
    assert_eq!(frames.len(), (2303 - 1) / 128 + 1);
    for frame in &frames {
        assert_eq!(frame.len(), 256);
    }
    assert_eq!(frames[1][5], (word(133.0), word(134.0)));
    assert_eq!(value(frames[17][100].0), 2276.0);
    assert_eq!(frames[17][127], (RawSample(0, 0, 0, 0), RawSample(0, 0, 0, 0)));
    assert_eq!(sink.process(&[]), Vec::<Vec<(RawSample, RawSample)>>::new());
    assert_eq!(sink.process(&bytes_of(&[1.0])), Vec::<Vec<(RawSample, RawSample)>>::new());
}

#[test]
fn spectra_have_the_transform_size_and_no_negative_magnitude() {
    let mut sink = STFTDisplay::try_open(SignalSpec { rate: 8000, channels: 1 }, 1001).unwrap();
    let samples: Vec<f32> = (0..1001).map(|i| ((i * 37) % 200) as f32 / 100.0 - 1.0).collect();
    sink.write(&DecodedBlock { frames: 1001, samples: bytes_of(&samples) }).unwrap();
    let params = sink.parameters();
    let fft = rustfft::FftPlanner::<f32>::new().plan_fft_forward(params.fft_size);
    let mut spectra: Vec<Vec<f32>> = Vec::new();
    for frame in sink.frames() {
        let mut input: Vec<rustfft::num_complex::Complex<f32>> = frame
            .iter()
            .enumerate()
            .map(|(j, (a, b))| {
                let mono = (value(*a) + value(*b)) / 2.0;
                let phase = 2.0 * std::f32::consts::PI * j as f32 / (params.window_size - 1) as f32;
                rustfft::num_complex::Complex::new(mono * 0.5 * (1.0 - phase.cos()), 0.0)
            })
            .collect();
        fft.process(&mut input);
        spectra.push(input.iter().map(|c| c.norm()).collect());
    }
    assert_eq!(spectra.len(), (1000 - 1) / 128 + 1);
    for spectrum in &spectra {
        assert_eq!(spectrum.len(), 256);
        assert!(spectrum.iter().all(|m| *m >= 0.0));
    }
}

#[test]
fn boxed_sink_takes_blocks_like_any_sink() {
    let mut sinks: Vec<Box<dyn Display>> = vec![try_open(stereo(), 2).unwrap()];
    let fits = DecodedBlock { frames: 2, samples: bytes_of(&[1.0, 2.0, 3.0, 4.0]) };
    let too_long = DecodedBlock { frames: 3, samples: bytes_of(&[1.0; 6]) };
    for sink in sinks.iter_mut() {
        assert_eq!(sink.write(&fits), Ok(()));
        assert_eq!(sink.write(&too_long), Err(DisplayError::GenericError));
        sink.flush();
    }
}

#[test]
fn boxed_sink_has_the_room_it_was_opened_for() {
    let mut sink = try_open(stereo(), 1152).unwrap();
    let full = DecodedBlock { frames: 1152, samples: bytes_of(&vec![0.25f32; 2304]) };
    let over = DecodedBlock { frames: 1153, samples: bytes_of(&vec![0.25f32; 2305]) };
    assert_eq!(sink.write(&full), Ok(()));
    assert_eq!(sink.write(&over), Err(DisplayError::GenericError));
    let mut mono = try_open(SignalSpec { rate: 8000, channels: 1 }, 1152).unwrap();
    let half = DecodedBlock { frames: 1152, samples: bytes_of(&vec![0.25f32; 1152]) };
    assert_eq!(mono.write(&half), Ok(()));
    assert_eq!(mono.write(&full), Err(DisplayError::GenericError));
}
