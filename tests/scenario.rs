use audioviz::capture::{deinterleave, AudioProcessedEvent};
use audioviz::spectrum::{bucket_index, pad_to_power_of_two};
use spectrum_analyzer::windows::hann_window;
use spectrum_analyzer::{samples_fft_to_spectrum, FrequencyLimit};

const RATE: u32 = 48000;
const BUCKETS: usize = 64;

fn log_buckets(samples: &[f32]) -> Vec<f32> {
    let mut windowed = hann_window(samples);
    pad_to_power_of_two(&mut windowed, 0.0);
    let spectrum =
        samples_fft_to_spectrum(&windowed, RATE, FrequencyLimit::Range(20.0, 20000.0), None)
            .unwrap();
    let (min, max) = (20.0f32, 20000.0f32);
    let mut buckets = vec![0.0f32; BUCKETS];
    for &(frequency, value) in spectrum.data() {
        let f = frequency.val();
        if f < min {
            continue;
        }
        let scale = (f.ln() - min.ln()) / (max.ln() - min.ln());
        let position = (scale * (BUCKETS as f32 - 1.0)) as usize;
        buckets[bucket_index(position, BUCKETS)] += value.val();
    }
    buckets
}

#[test]
fn pure_tone_at_440_hz_dominates_its_bucket() {
    // a stereo block of 2048 frames of a full-scale 440 Hz tone
    let mut block = Vec::with_capacity(4096);
    for k in 0..2048 {
        let s = (2.0 * std::f32::consts::PI * 440.0 * k as f32 / RATE as f32).sin();
        block.push(s);
        block.push(s);
    }
    let AudioProcessedEvent { left, right } = deinterleave(&block, 2);
    assert_eq!(left.len(), 2048);
    assert_eq!(left, right);

    let buckets = log_buckets(&left);
    let peak = buckets.iter().cloned().fold(0.0f32, f32::max);
    let loudest = buckets.iter().position(|&b| b == peak).unwrap();
    // the bucket whose log-frequency range holds 440 Hz
    let scale = (440f32.ln() - 20f32.ln()) / (20000f32.ln() - 20f32.ln());
    let expected = bucket_index((scale * 63.0) as usize, BUCKETS);
    assert_eq!(loudest, expected);
    assert!((buckets[loudest] / peak - 1.0).abs() < 1e-6);
    // far from the tone the spectrum is close to silent
    for (i, &b) in buckets.iter().enumerate() {
        if i + 4 < loudest || i > loudest + 4 {
            assert!(b / peak < 0.05, "bucket {} holds {}", i, b / peak);
        }
    }
}
