use audioviz::spectrum::{bucket_index, is_power_of_two, pad_to_power_of_two, padded_len};

#[test]
fn powers_of_two_are_recognised() {
    assert!(!is_power_of_two(0));
    assert!(is_power_of_two(1));
    assert!(is_power_of_two(2));
    assert!(!is_power_of_two(3));
    assert!(is_power_of_two(64));
    assert!(!is_power_of_two(1000));
    assert!(is_power_of_two(2048));
    assert!(is_power_of_two(1usize << 63));
    assert!(!is_power_of_two(usize::MAX));
}

#[test]
fn padded_len_is_smallest_power_of_two() {
    assert_eq!(padded_len(0), 1);
    assert_eq!(padded_len(1), 1);
    assert_eq!(padded_len(2), 2);
    assert_eq!(padded_len(3), 4);
    assert_eq!(padded_len(5), 8);
    assert_eq!(padded_len(1024), 1024);
    assert_eq!(padded_len(1025), 2048);
    assert_eq!(padded_len(1usize << 63), 1usize << 63);
    assert_eq!(padded_len((1usize << 62) + 1), 1usize << 63);
}

#[test]
fn padding_appends_zeros() {
    let mut samples = vec![0.5f32, -0.5, 0.25];
    pad_to_power_of_two(&mut samples, 0.0);
    assert_eq!(samples, vec![0.5, -0.5, 0.25, 0.0]);

    let mut odd = vec![1.0f32; 1500];
    pad_to_power_of_two(&mut odd, 0.0);
    assert_eq!(odd.len(), 2048);
    assert!(odd[..1500].iter().all(|&x| x == 1.0));
    assert!(odd[1500..].iter().all(|&x| x == 0.0));
}

#[test]
fn padding_keeps_power_of_two_lengths() {
    let mut samples = vec![0.75f32; 2048];
    pad_to_power_of_two(&mut samples, 0.0);
    assert_eq!(samples.len(), 2048);
    assert!(samples.iter().all(|&x| x == 0.75));
}

#[test]
fn padding_empty_gives_one_zero() {
    let mut samples: Vec<f32> = Vec::new();
    pad_to_power_of_two(&mut samples, 0.0);
    assert_eq!(samples, vec![0.0]);
}

#[test]
fn bucket_index_clamps_to_last_bucket() {
    assert_eq!(bucket_index(0, 64), 0);
    assert_eq!(bucket_index(10, 64), 10);
    assert_eq!(bucket_index(63, 64), 63);
    assert_eq!(bucket_index(64, 64), 63);
    assert_eq!(bucket_index(usize::MAX, 64), 63);
    assert_eq!(bucket_index(5, 1), 0);
}

#[test]
fn bucket_index_is_monotone() {
    let mut last = 0;
    for p in 0..200usize {
        let b = bucket_index(p, 64);
        assert!(b >= last);
        last = b;
    }
}

#[test]
fn tone_at_440_hz_lands_in_its_log_bucket() {
    // position of 440 Hz on the log axis from 20 Hz to 20 kHz, 64 buckets
    let scale = (440f32.ln() - 20f32.ln()) / (20000f32.ln() - 20f32.ln());
    let position = (scale * 63.0) as usize;
    assert_eq!(position, 28);
    assert_eq!(bucket_index(position, 64), 28);
}
