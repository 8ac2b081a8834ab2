use bass_trainer::audio::{
    capture_plan, channel_samples, drain_into, feed_samples, max_input_channels, pick_f32_config,
    sample_ring, CaptureError, ConfigChoice, ConfigRange,
};

fn range(channels: u16, is_f32: bool, min: u32, max: u32) -> ConfigRange {
    ConfigRange { channels, is_f32, min_sample_rate: min, max_sample_rate: max }
}

#[test]
fn first_48k_range_wins() {
    let ranges = vec![
        range(2, true, 8_000, 44_100),
        range(2, true, 8_000, 96_000),
        range(2, true, 48_000, 48_000),
    ];
    assert_eq!(pick_f32_config(&ranges, 1), Ok(ConfigChoice { index: 1, sample_rate: 48_000 }));
}

#[test]
fn last_44k_range_wins_without_48k() {
    let ranges = vec![
        range(2, true, 22_050, 22_050),
        range(2, true, 44_100, 44_100),
        range(1, true, 8_000, 44_100),
        range(4, true, 8_000, 44_100),
        range(4, false, 44_100, 48_000),
    ];
    assert_eq!(pick_f32_config(&ranges, 2), Ok(ConfigChoice { index: 3, sample_rate: 44_100 }));
}

#[test]
fn first_eligible_range_otherwise_at_its_top_rate() {
    let ranges = vec![
        range(1, true, 8_000, 16_000),
        range(2, true, 8_000, 32_000),
        range(2, true, 8_000, 24_000),
    ];
    assert_eq!(pick_f32_config(&ranges, 2), Ok(ConfigChoice { index: 1, sample_rate: 32_000 }));
}

#[test]
fn no_float_range_is_an_error() {
    let ranges = vec![range(2, false, 44_100, 48_000), range(1, true, 48_000, 48_000)];
    assert_eq!(pick_f32_config(&ranges, 2), Err(CaptureError::NoF32Config { required_channels: 2 }));
    assert_eq!(pick_f32_config(&Vec::new(), 1), Err(CaptureError::NoF32Config { required_channels: 1 }));
}

#[test]
fn capture_plan_asks_for_one_more_channel_than_the_index() {
    let ranges = vec![range(1, true, 48_000, 48_000), range(4, true, 44_100, 44_100)];
    let plan = capture_plan(&ranges, 2).unwrap();
    assert_eq!(plan.range_index, 1);
    assert_eq!(plan.sample_rate, 44_100);
    assert_eq!(plan.channels, 4);
    assert_eq!(plan.channel_index, 2);
    assert_eq!(capture_plan(&ranges, 0).unwrap().range_index, 0);
    assert_eq!(capture_plan(&ranges, 4), Err(CaptureError::NoF32Config { required_channels: 5 }));
}

#[test]
fn channel_samples_deinterleaves() {
    let data = [1, 2, 3, 4, 5, 6, 7];
    assert_eq!(channel_samples(&data, 2, 0), vec![1, 3, 5]);
    assert_eq!(channel_samples(&data, 2, 1), vec![2, 4, 6]);
    assert_eq!(channel_samples(&data, 3, 2), vec![3, 6]);
    assert_eq!(channel_samples(&data, 1, 0), data.to_vec());
    assert!(channel_samples(&data, 8, 0).is_empty());
}

#[test]
fn max_input_channels_of_configs() {
    assert_eq!(max_input_channels(&vec![2, 8, 1]), 8);
    assert_eq!(max_input_channels(&Vec::new()), 0);
}

#[test]
fn ring_buffer_round_trip() {
    let (mut feed, mut queue) = sample_ring::<i32>(4);
    assert_eq!(feed_samples(&mut feed, &[1, 2, 3, 4, 5, 6]), 4);
    let mut dest = vec![0];
    assert_eq!(drain_into(&mut queue, &mut dest, 3), 3);
    assert_eq!(dest, vec![0, 1, 2, 3]);
    assert_eq!(drain_into(&mut queue, &mut dest, 10), 1);
    assert_eq!(dest, vec![0, 1, 2, 3, 4]);
    assert_eq!(drain_into(&mut queue, &mut dest, 10), 0);
}
