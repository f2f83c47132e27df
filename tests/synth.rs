use spectrogram_synth::{block_count, Envelope, Step, SynthError, Timing};

#[test]
fn block_count_of_consistent_bands() {
    let bands: Vec<Vec<f64>> = vec![vec![1.0, 0.5, 0.2], vec![0.0, 0.0, 0.0]];
    assert_eq!(block_count(&bands), Ok(3));
}

#[test]
fn mismatched_band_lengths_are_rejected() {
    let bands: Vec<Vec<f64>> = vec![vec![1.0, 0.5], vec![0.1], vec![0.3, 0.3]];
    assert_eq!(block_count(&bands), Err(SynthError::InconsistentBandLength));
    let longer: Vec<Vec<f64>> = vec![vec![1.0], vec![0.1, 0.2]];
    assert_eq!(block_count(&longer), Err(SynthError::InconsistentBandLength));
}

#[test]
fn empty_band_list_is_rejected() {
    let bands: Vec<Vec<f64>> = vec![];
    assert_eq!(block_count(&bands), Err(SynthError::InconsistentBandLength));
}

#[test]
fn zero_samples_per_block_is_degenerate() {
    assert!(matches!(Timing::new(0, 4), Err(SynthError::DegenerateTiming)));
    assert!(matches!(Timing::new(10, 0), Err(SynthError::DegenerateTiming)));
}

#[test]
fn timing_lengths() {
    let t = Timing::new(96_000, 16).unwrap();
    assert_eq!(t.interpolation_count, 9_600);
    assert_eq!(t.total_len(), 1_536_000);
    let small = Timing::new(9, 3).unwrap();
    assert_eq!(small.interpolation_count, 0);
    assert_eq!(small.head_len(1), 0);
    assert_eq!(small.tail_len(1), 0);
}

#[test]
fn single_block_writes_in_order_without_blend() {
    let t = Timing::new(44_100, 1).unwrap();
    assert_eq!(t.head_len(0), 0);
    assert_eq!(t.tail_len(0), 0);
    for k in [0usize, 1, 2, 4_409, 4_410, 44_099] {
        assert_eq!(t.step(0, k), Step { index: k, envelope: Envelope::Steady });
    }
    // sample k carries phase k * 2 pi * 440 / 44100
    let k = 100usize;
    let phase_step = 2.0 * std::f64::consts::PI * 440.0 / 44_100.0;
    let mut phase = 0.0f64;
    for _ in 0..t.step(0, k).index {
        phase += phase_step;
    }
    assert!((phase.sin() - (k as f64 * phase_step).sin()).abs() < 1e-9);
}

#[test]
fn block_parts() {
    let t = Timing::new(30, 3).unwrap();
    assert_eq!(t.interpolation_count, 3);
    assert_eq!((t.head_len(0), t.tail_len(0)), (0, 3));
    assert_eq!((t.head_len(1), t.tail_len(1)), (3, 3));
    assert_eq!((t.head_len(2), t.tail_len(2)), (3, 0));
}

#[test]
fn head_crossfade_runs_from_average_to_own_amplitude() {
    let t = Timing::new(100, 2).unwrap();
    let span = t.interpolation_count - 1;
    let first = t.step(1, 0);
    let last = t.step(1, t.interpolation_count - 1);
    assert_eq!(first, Step { index: 100, envelope: Envelope::FromPrevious { position: 0, span } });
    assert_eq!(
        last,
        Step { index: 109, envelope: Envelope::FromPrevious { position: span, span } }
    );
    let (a0, a1) = (1.0f64, 0.5f64);
    let blend = |e: Envelope| match e {
        Envelope::FromPrevious { position, span } => {
            let p = if span == 0 { 0.0 } else { position as f64 / span as f64 };
            a1 * p + (a0 + a1) / 2.0 * (1.0 - p)
        }
        _ => panic!("expected a head crossfade"),
    };
    assert!((blend(first.envelope) - 0.75).abs() < 1e-12);
    assert!((blend(last.envelope) - 0.5).abs() < 1e-12);
}

#[test]
fn tail_writes_backwards() {
    let t = Timing::new(20, 2).unwrap();
    assert_eq!(t.interpolation_count, 2);
    assert_eq!(t.step(0, 17), Step { index: 17, envelope: Envelope::Steady });
    assert_eq!(
        t.step(0, 18),
        Step { index: 19, envelope: Envelope::FromNext { position: 0, span: 1 } }
    );
    assert_eq!(
        t.step(0, 19),
        Step { index: 18, envelope: Envelope::FromNext { position: 1, span: 1 } }
    );
    assert_eq!(t.step(1, 1), Step { index: 21, envelope: Envelope::FromPrevious { position: 1, span: 1 } });
    assert_eq!(t.step(1, 19), Step { index: 39, envelope: Envelope::Steady });
}

#[test]
fn single_sample_window_has_no_spread() {
    let t = Timing::new(15, 2).unwrap();
    assert_eq!(t.interpolation_count, 1);
    assert_eq!(
        t.step(0, 14),
        Step { index: 14, envelope: Envelope::FromNext { position: 0, span: 0 } }
    );
    assert_eq!(
        t.step(1, 0),
        Step { index: 15, envelope: Envelope::FromPrevious { position: 0, span: 0 } }
    );
}

#[test]
fn every_sample_written_once_per_band() {
    for (spb, blocks) in [(25usize, 3usize), (40, 1), (9, 4), (100, 5)] {
        let t = Timing::new(spb, blocks).unwrap();
        let mut hits = vec![0u32; t.total_len()];
        for b in 0..blocks {
            for o in 0..spb {
                hits[t.step(b, o).index] += 1;
            }
        }
        assert_eq!(hits.len(), spb * blocks);
        assert!(hits.iter().all(|&h| h == 1));
    }
}
