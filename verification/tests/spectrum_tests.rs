//! The spectrum analyzer: cutoff validation, the bucketing rule, window
//! extraction, and the end-to-end sine check through a real FFT.

use spectrum_analyzer::scaling::divide_by_N;
use spectrum_analyzer::windows::hann_window;
use spectrum_analyzer::{samples_fft_to_spectrum, FrequencyLimit};
use st7789volumio::spectrum::{drain_decision, DrainStep, SpInfo};

/// The log-spaced cutoffs of the original formula, in millihertz:
/// `cutoff_j = 10 ^ (log10(f_min) + (j + 1) * step)` with
/// `step = (log10(f_max) - log10(f_min)) / n`.
fn cutoffs_millihertz(n: usize, f_min: f64, f_max: f64) -> Vec<u64> {
    let step = (f_max.log10() - f_min.log10()) / n as f64;
    (0..n)
        .map(|j| {
            let c = 10f64.powf(f_min.log10() + step * (j + 1) as f64);
            (c * 1000.0).round() as u64
        })
        .collect()
}

#[test]
fn construction_needs_strictly_increasing_cutoffs() {
    assert!(SpInfo::new(500, vec![10, 10, 20]).is_none());
    assert!(SpInfo::new(500, vec![30, 20, 10]).is_none());
    let sp = SpInfo::new(500, vec![10, 20, 30]).unwrap();
    assert_eq!(sp.bar_count_config(), 3);
    assert!(SpInfo::new(0, vec![]).is_some());
}

#[test]
fn formula_cutoffs_are_strictly_increasing() {
    let c = cutoffs_millihertz(16, 50.0, 20000.0);
    for j in 1..c.len() {
        assert!(c[j - 1] < c[j]);
    }
    assert!(SpInfo::new(500, c).is_some());
}

#[test]
fn bucketing_means_and_boundaries() {
    let sp = SpInfo::new(0, vec![10, 20, 30]).unwrap();
    // Bar 0 takes the sub-cutoff bin; bar 1 takes its first bin and the
    // next one below its cutoff; bar 2 takes the remaining bin.
    let data = vec![(5u64, 4u64), (12, 6), (13, 8), (25, 10)];
    assert_eq!(sp.bucket_bars(&data), vec![4, 7, 10]);
}

#[test]
fn bucketing_always_takes_the_first_available_bin() {
    let sp = SpInfo::new(0, vec![10, 20, 30]).unwrap();
    // Both bins lie above the first cutoffs, but a bucket never ends
    // empty while bins remain: the first available bin is always taken.
    let data = vec![(50u64, 100u64), (60, 200)];
    assert_eq!(sp.bucket_bars(&data), vec![100, 200, 0]);
}

#[test]
fn bucketing_handles_empty_spectrum() {
    let sp = SpInfo::new(0, vec![10, 20, 30]).unwrap();
    assert_eq!(sp.bucket_bars(&Vec::new()), vec![0, 0, 0]);
    assert_eq!(sp.zero_bars(), vec![0, 0, 0]);
}

#[test]
fn window_needs_enough_recorded_data() {
    // A half-second offset needs 22050 recorded frames.
    let mut sp = SpInfo::new(500, vec![10, 20]).unwrap();
    assert!(sp.extract_window().is_none());
    sp.feed(&vec![0u8; 44100]);
    let w = sp.extract_window().expect("22050 frames recorded");
    assert_eq!(w.len(), 1024);
    assert!(w.iter().all(|&s| s == 0));
}

#[test]
fn window_decodes_the_fed_samples() {
    // Offset zero: the window starts right at the write cursor and wraps
    // back over the most recent bytes.
    let mut sp = SpInfo::new(0, vec![10]).unwrap();
    let mut bytes = Vec::new();
    for i in 0..1024i16 {
        let b = (i - 512).to_le_bytes();
        bytes.push(b[0]);
        bytes.push(b[1]);
    }
    sp.feed(&bytes);
    sp.clean();
    sp.feed(&bytes);
    // With the cursor at 2048 and offset 0, the window head is byte 2048:
    // it wraps through the zeroed tail of the one-second buffer.
    let w = sp.extract_window().unwrap();
    assert_eq!(w.len(), 1024);
    assert!(w.iter().all(|&s| s == 0));
}

#[test]
fn sine_peak_lands_in_the_bucket_holding_its_frequency() {
    let cutoffs = cutoffs_millihertz(16, 50.0, 20000.0);
    let mut sp = SpInfo::new(500, cutoffs.clone()).unwrap();

    // One second of a 1 kHz sine at 44100 Hz, 16-bit signed
    // little-endian.
    let mut bytes = Vec::with_capacity(88200);
    for i in 0..44100u32 {
        let v = (2.0 * std::f64::consts::PI * 1000.0 * (i as f64) / 44100.0).sin();
        let s = (v * 20000.0) as i16;
        let b = s.to_le_bytes();
        bytes.push(b[0]);
        bytes.push(b[1]);
    }
    let mut fed = 0usize;
    while fed < bytes.len() {
        let room = sp.once_readable_len() as usize;
        let take = room.min(bytes.len() - fed);
        sp.feed(&bytes[fed..fed + take]);
        fed += take;
    }

    let w = sp.extract_window().expect("a full second was recorded");
    assert_eq!(w.len(), 1024);
    // The window starts half a second back: sample frame 22050.
    let first = i16::from_le_bytes([bytes[44100], bytes[44101]]);
    assert_eq!(w[0], first);

    let samples: Vec<f32> = w.iter().map(|&s| s as f32 / 32767.0).collect();
    let windowed = hann_window(&samples);
    let spectrum = samples_fft_to_spectrum(
        &windowed,
        44100,
        FrequencyLimit::range(50.0f32, 20000.0f32),
        Some(&divide_by_N),
    )
    .unwrap();
    let data: Vec<(u64, u64)> = spectrum
        .data()
        .iter()
        .map(|(f, v)| {
            (
                (f.val() as f64 * 1000.0).round() as u64,
                (v.val() as f64 * 1.0e9).round() as u64,
            )
        })
        .collect();

    let bars = sp.bucket_bars(&data);
    assert_eq!(bars.len(), 16);
    let peak = bars
        .iter()
        .enumerate()
        .max_by_key(|(_, v)| **v)
        .unwrap()
        .0;

    // The buckets whose cutoff range holds 1 kHz (an exact boundary may
    // belong to either neighbor).
    let target = 1_000_000u64;
    let mut containing = Vec::new();
    for j in 0..cutoffs.len() {
        let low = if j == 0 { 50_000 } else { cutoffs[j - 1] };
        if low <= target && target <= cutoffs[j] {
            containing.push(j);
        }
    }
    assert!(
        containing.contains(&peak),
        "peak bucket {peak} does not hold 1 kHz (expected one of {containing:?}, bars {bars:?})"
    );
    let lo = *containing.first().unwrap();
    let hi = *containing.last().unwrap();
    if lo > 0 {
        assert!(bars[lo - 1] < bars[peak]);
    }
    if hi + 1 < bars.len() {
        assert!(bars[hi + 1] < bars[peak]);
    }
}

#[test]
fn drain_decision_follows_the_read_discipline() {
    // A full-width read drains again at once.
    assert_eq!(drain_decision(88200, 88200, 0, 100), DrainStep::Continue);
    // A read that yields nothing means no new samples this tick.
    assert_eq!(drain_decision(0, 88200, 0, 100), DrainStep::Stop);
    assert_eq!(drain_decision(-1, 88200, 0, 100), DrainStep::Stop);
    // A short read waits for the missing bytes, capped by the remaining
    // budget: 88100 bytes at 88200 bytes per second is 998 ms, capped.
    assert_eq!(drain_decision(100, 88200, 0, 100), DrainStep::Wait(100));
    // A nearly full read waits at least one millisecond:
    // 88 bytes need 0 ms at the sample rate.
    assert_eq!(drain_decision(112, 200, 0, 100), DrainStep::Wait(1));
    // A spent budget stops the drain.
    assert_eq!(drain_decision(100, 88200, 100, 100), DrainStep::Stop);
    // A partly spent budget caps the wait at what is left.
    assert_eq!(drain_decision(100, 88200, 60, 100), DrainStep::Wait(40));
}
