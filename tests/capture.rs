use audioviz::capture::{
    block_action, deinterleave, AudioProcessedEvent, flag_after_send, poll_action, BlockAction, BufferSizeRange,
    DeviceType, PollAction,
};

#[test]
fn deinterleave_stereo_splits_even_and_odd() {
    let data = [0.1f32, -0.1, 0.2, -0.2, 0.3, -0.3];
    let AudioProcessedEvent { left, right } = deinterleave(&data, 2);
    assert_eq!(left, vec![0.1, 0.2, 0.3]);
    assert_eq!(right, vec![-0.1, -0.2, -0.3]);
}

#[test]
fn deinterleave_drops_trailing_partial_frame() {
    let data = [1, 2, 3, 4, 5];
    let AudioProcessedEvent { left, right } = deinterleave(&data, 2);
    assert_eq!(left, vec![1, 3]);
    assert_eq!(right, vec![2, 4]);
}

#[test]
fn deinterleave_mono_copies_to_both_sides() {
    let data = [0.5f32, 0.25, -1.0];
    let AudioProcessedEvent { left, right } = deinterleave(&data, 1);
    assert_eq!(left, vec![0.5, 0.25, -1.0]);
    assert_eq!(right, vec![0.5, 0.25, -1.0]);
}

#[test]
fn deinterleave_takes_first_two_of_wider_frames() {
    let data = [1, 2, 3, 4, 11, 12, 13, 14];
    let AudioProcessedEvent { left, right } = deinterleave(&data, 4);
    assert_eq!(left, vec![1, 11]);
    assert_eq!(right, vec![2, 12]);
}

#[test]
fn deinterleave_without_channels_is_empty() {
    let AudioProcessedEvent { left, right } = deinterleave(&[1, 2, 3], 0);
    assert!(left.is_empty());
    assert!(right.is_empty());
}

#[test]
fn deinterleave_empty_block() {
    let data: [f32; 0] = [];
    let AudioProcessedEvent { left, right } = deinterleave(&data, 2);
    assert!(left.is_empty());
    assert!(right.is_empty());
}

#[test]
fn block_in_range_is_delivered() {
    let range = BufferSizeRange::Range { min: 64, max: 4096 };
    assert_eq!(block_action(true, 64, range), BlockAction::Deliver);
    assert_eq!(block_action(true, 2048, range), BlockAction::Deliver);
    assert_eq!(block_action(true, 4096, range), BlockAction::Deliver);
}

#[test]
fn block_out_of_range_is_dropped() {
    let range = BufferSizeRange::Range { min: 64, max: 4096 };
    assert_eq!(block_action(true, 63, range), BlockAction::Drop);
    assert_eq!(block_action(true, 4097, range), BlockAction::Drop);
    assert_eq!(block_action(true, 0, range), BlockAction::Drop);
}

#[test]
fn block_with_unknown_range_is_delivered() {
    assert_eq!(block_action(true, 7, BufferSizeRange::Unknown), BlockAction::Deliver);
}

#[test]
fn lowered_flag_stops_sends_and_poll_loop() {
    let range = BufferSizeRange::Range { min: 64, max: 4096 };
    assert_eq!(poll_action(true), PollAction::Sleep);
    assert_eq!(block_action(true, 2048, range), BlockAction::Deliver);
    // the flag flips mid-stream
    assert_eq!(block_action(false, 2048, range), BlockAction::Ignore);
    assert_eq!(block_action(false, 1, range), BlockAction::Ignore);
    assert_eq!(block_action(false, 9, BufferSizeRange::Unknown), BlockAction::Ignore);
    assert_eq!(poll_action(false), PollAction::Exit);
}

#[test]
fn failed_send_lowers_the_flag() {
    assert!(flag_after_send(true, true));
    assert!(!flag_after_send(true, false));
    assert!(!flag_after_send(false, true));
}

#[test]
fn mic_mode_selects_input() {
    assert_eq!(DeviceType::from_mic_mode(true), DeviceType::Input);
    assert_eq!(DeviceType::from_mic_mode(false), DeviceType::Output);
}
