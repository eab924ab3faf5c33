use glassbox::tap::{Tap, TapOutput, TapOutputChannel, DISPLAY_BUFFER_SIZE, SILENCE_BITS};

#[test]
fn new_channel_reads_silence() {
    let channel = TapOutputChannel::new();
    let read = channel.read_in_order();
    assert_eq!(read.len(), DISPLAY_BUFFER_SIZE);
    assert!(read.iter().all(|&s| s == SILENCE_BITS));
    assert_eq!(SILENCE_BITS, 0.0f32.to_bits());
}

#[test]
fn newest_sample_is_last() {
    let mut channel = TapOutputChannel::new();
    channel.write(7);
    channel.write(8);
    channel.write(9);
    let read = channel.read_in_order();
    assert_eq!(read.len(), DISPLAY_BUFFER_SIZE);
    assert_eq!(read[DISPLAY_BUFFER_SIZE - 1], 9);
    assert_eq!(read[DISPLAY_BUFFER_SIZE - 2], 8);
    assert_eq!(read[DISPLAY_BUFFER_SIZE - 3], 7);
    assert_eq!(read[DISPLAY_BUFFER_SIZE - 4], 0);
    assert_eq!(read[0], 0);
}

#[test]
fn one_write_after_new_is_read_last() {
    let mut channel = TapOutputChannel::new();
    channel.write(1.0f32.to_bits());
    let read = channel.read_in_order();
    assert_eq!(f32::from_bits(read[DISPLAY_BUFFER_SIZE - 1]), 1.0);
    assert!(read[..DISPLAY_BUFFER_SIZE - 1].iter().all(|&s| s == 0));
}

#[test]
fn reads_window_after_wrapping_around() {
    let mut channel = TapOutputChannel::new();
    let total = DISPLAY_BUFFER_SIZE + 5;
    for s in 0..total as u32 {
        channel.write(s);
    }
    let read = channel.read_in_order();
    // The window holds samples 5 ..= total - 1, oldest first.
    for (i, &s) in read.iter().enumerate() {
        assert_eq!(s, 5 + i as u32);
    }
}

#[test]
fn read_does_not_change_channel() {
    let mut channel = TapOutputChannel::new();
    channel.write(42);
    let first = channel.read_in_order();
    let second = channel.read_in_order();
    assert_eq!(first, second);
}

#[test]
fn float_samples_round_trip_through_bits() {
    let mut channel = TapOutputChannel::new();
    channel.write((-0.25f32).to_bits());
    let read = channel.read_in_order();
    assert_eq!(f32::from_bits(read[DISPLAY_BUFFER_SIZE - 1]), -0.25f32);
}

#[test]
fn output_write_goes_to_its_channel_only() {
    let mut output = TapOutput::new();
    output.write(11, 0);
    output.write(22, 1);
    output.write(33, 1);
    let [left, right] = output.read_in_order();
    assert_eq!(left[DISPLAY_BUFFER_SIZE - 1], 11);
    assert_eq!(left[DISPLAY_BUFFER_SIZE - 2], 0);
    assert_eq!(right[DISPLAY_BUFFER_SIZE - 1], 33);
    assert_eq!(right[DISPLAY_BUFFER_SIZE - 2], 22);
}

#[test]
fn output_ignores_channels_past_the_count() {
    let mut output = TapOutput::new();
    output.write(5, 3);
    output.write(6, 100);
    let [left, right] = output.read_in_order();
    assert!(left.iter().all(|&s| s == 0));
    assert!(right.iter().all(|&s| s == 0));
}

#[test]
fn tap_deinterleaves_stereo() {
    let mut output = TapOutput::new();
    let mut tap = Tap::new(());
    for s in [1u32, 2, 3, 4, 5, 6] {
        assert_eq!(tap.next(Some(s), 2, &mut output), Some(s));
    }
    let [left, right] = output.read_in_order();
    assert_eq!(&left[DISPLAY_BUFFER_SIZE - 3..], &[1, 3, 5]);
    assert_eq!(&right[DISPLAY_BUFFER_SIZE - 3..], &[2, 4, 6]);
}

#[test]
fn tap_mono_records_on_first_channel() {
    let mut output = TapOutput::new();
    let mut tap = Tap::new(());
    for s in [9u32, 8, 7] {
        tap.next(Some(s), 1, &mut output);
    }
    let [left, right] = output.read_in_order();
    assert_eq!(&left[DISPLAY_BUFFER_SIZE - 3..], &[9, 8, 7]);
    assert!(right.iter().all(|&s| s == 0));
}

#[test]
fn tap_end_of_stream_records_nothing() {
    let mut output = TapOutput::new();
    let mut tap = Tap::new(());
    tap.next(Some(1), 2, &mut output);
    assert_eq!(tap.next(None, 2, &mut output), None);
    tap.next(Some(2), 2, &mut output);
    let [left, right] = output.read_in_order();
    assert_eq!(left[DISPLAY_BUFFER_SIZE - 1], 1);
    assert_eq!(right[DISPLAY_BUFFER_SIZE - 1], 2);
}

#[test]
fn tap_gives_access_to_its_source() {
    let mut tap = Tap::new(vec![1u32, 2]);
    tap.inner_mut().push(3);
    assert_eq!(tap.inner_mut().len(), 3);
}

#[test]
fn full_lap_of_writes_replaces_every_sample() {
    let mut channel = TapOutputChannel::new();
    for s in 0..DISPLAY_BUFFER_SIZE as u32 {
        channel.write(s + 1);
    }
    let read = channel.read_in_order();
    for (i, &s) in read.iter().enumerate() {
        assert_eq!(s, i as u32 + 1);
    }
}
