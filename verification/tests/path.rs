use audio_fx::config::{Config, FilterVariant};
use audio_fx::delay::DelayFilter;
use audio_fx::error::ConfigError;
use audio_fx::filter::Filter;
use audio_fx::kernel::{Kernel, SILENCE};
use audio_fx::path::SignalPath;
use audio_fx::playback::render_slot;
use audio_fx::ring::MAX_FRAMES;
use audio_fx::session::{nth_device, DeviceChoice};

fn lfo(t: u64, coefficient: u32, amplitude: u32) -> usize {
    (((t as f32 * f32::from_bits(coefficient)).cos() + 1.0) * f32::from_bits(amplitude)).round()
        as usize
}

fn mix(x: u32, h: u32, decay: u32) -> u32 {
    (f32::from_bits(x) + f32::from_bits(h) * f32::from_bits(decay)).to_bits()
}

fn clip(x: u32, gain: u32, saturation: u32) -> u32 {
    let s = f32::from_bits(saturation);
    (f32::from_bits(x) * f32::from_bits(gain)).clamp(-s, s).to_bits()
}

fn words(xs: &[f32]) -> Vec<u32> {
    xs.iter().map(|x| x.to_bits()).collect()
}

fn amplitudes(ws: &[u32]) -> Vec<f32> {
    ws.iter().map(|w| f32::from_bits(*w)).collect()
}

fn delay_path(frames: usize, decay: f32, capacity: usize) -> SignalPath {
    let filter = Filter::Delay(DelayFilter::new(frames, decay.to_bits()).unwrap());
    SignalPath::new(capacity, filter).unwrap()
}

#[test]
fn silence_is_the_word_of_amplitude_zero() {
    assert_eq!(f32::from_bits(SILENCE), 0.0);
    assert_eq!(0.0f32.to_bits(), SILENCE);
}

#[test]
fn impulse_through_a_delay_comes_back_decayed() {
    let kernel = Kernel::new(lfo, mix, clip);
    let mut path = delay_path(3, 0.5, 5);
    assert_eq!(path.capture(&words(&[1.0, 0.0, 0.0, 0.0, 0.0])), 5);
    let mut out = vec![7u32; 5];
    assert_eq!(path.playback(&mut out, &kernel), 5);
    assert_eq!(amplitudes(&out), vec![1.0, 0.0, 0.0, 0.5, 0.0]);
}

#[test]
fn capture_keeps_the_front_of_a_block_that_does_not_fit() {
    let kernel = Kernel::new(lfo, mix, clip);
    let mut path = SignalPath::new(4, Filter::PassThrough).unwrap();
    assert_eq!(path.capture(&[1, 2, 3, 4, 5]), 4);
    assert_eq!(path.capture(&[6, 7]), 0);
    let mut out = vec![9u32; 6];
    assert_eq!(path.playback(&mut out, &kernel), 4);
    assert_eq!(out, vec![1, 2, 3, 4, SILENCE, SILENCE]);
}

#[test]
fn capture_fills_the_room_that_is_left() {
    let kernel = Kernel::new(lfo, mix, clip);
    let mut path = SignalPath::new(4, Filter::PassThrough).unwrap();
    assert_eq!(path.capture(&[1, 2, 3]), 3);
    assert_eq!(path.capture(&[4, 5, 6]), 1);
    let mut out = vec![0u32; 2];
    assert_eq!(path.playback(&mut out, &kernel), 2);
    assert_eq!(out, vec![1, 2]);
    assert_eq!(path.capture(&[7, 8, 9]), 2);
    let mut rest = vec![0u32; 4];
    assert_eq!(path.playback(&mut rest, &kernel), 4);
    assert_eq!(rest, vec![3, 4, 7, 8]);
}

#[test]
fn playback_keeps_the_order_of_capture() {
    let kernel = Kernel::new(lfo, mix, clip);
    let mut path = SignalPath::new(16, Filter::PassThrough).unwrap();
    let block: Vec<u32> = (100..110).collect();
    assert_eq!(path.capture(&block), 10);
    let mut out = vec![0u32; 10];
    assert_eq!(path.playback(&mut out, &kernel), 10);
    assert_eq!(out, block);
}

#[test]
fn underrun_yields_silence() {
    let kernel = Kernel::new(lfo, mix, clip);
    let mut path = delay_path(3, 0.5, 8);
    let mut out = vec![0xdead_beefu32; 6];
    assert_eq!(path.playback(&mut out, &kernel), 0);
    assert_eq!(out, vec![SILENCE; 6]);
}

#[test]
fn underrun_leaves_the_filter_as_it_was() {
    let kernel = Kernel::new(lfo, mix, clip);
    let input = words(&[1.0, 0.25, 0.0, 0.0, 0.0, 0.0]);

    let mut steady = delay_path(2, 0.5, 8);
    steady.capture(&input);
    let mut expected = vec![0u32; 6];
    steady.playback(&mut expected, &kernel);

    let mut starved = delay_path(2, 0.5, 8);
    starved.capture(&input[..3]);
    let mut first = vec![0u32; 5];
    assert_eq!(starved.playback(&mut first, &kernel), 3);
    assert_eq!(first[3..], [SILENCE, SILENCE]);
    let mut gap = vec![1u32; 4];
    assert_eq!(starved.playback(&mut gap, &kernel), 0);
    assert_eq!(gap, vec![SILENCE; 4]);
    starved.capture(&input[3..]);
    let mut second = vec![0u32; 3];
    assert_eq!(starved.playback(&mut second, &kernel), 3);

    assert_eq!(first[..3], expected[..3]);
    assert_eq!(second[..], expected[3..]);
}

#[test]
fn playback_of_no_slots_takes_nothing() {
    let kernel = Kernel::new(lfo, mix, clip);
    let mut path = SignalPath::new(4, Filter::PassThrough).unwrap();
    path.capture(&[1, 2]);
    let mut none: Vec<u32> = Vec::new();
    assert_eq!(path.playback(&mut none, &kernel), 0);
    let mut out = vec![0u32; 2];
    assert_eq!(path.playback(&mut out, &kernel), 2);
    assert_eq!(out, vec![1, 2]);
}

#[test]
fn slot_without_a_sample_is_silent_and_spares_the_filter() {
    let kernel = Kernel::new(lfo, mix, clip);
    let mut filter = Filter::Delay(DelayFilter::new(1, 0.5f32.to_bits()).unwrap());
    assert_eq!(render_slot(&mut filter, Some(1.0f32.to_bits()), &kernel), 1.0f32.to_bits());
    assert_eq!(render_slot(&mut filter, None, &kernel), SILENCE);
    assert_eq!(render_slot(&mut filter, None, &kernel), SILENCE);
    assert_eq!(render_slot(&mut filter, Some(0.0f32.to_bits()), &kernel), 0.5f32.to_bits());
}

#[test]
fn split_ends_pass_samples_through_the_queue() {
    let kernel = Kernel::new(lfo, mix, clip);
    let (mut sink, mut source) = delay_path(3, 0.5, 5).split();
    assert_eq!(sink.write(&words(&[1.0, 0.0, 0.0, 0.0, 0.0])), 5);
    let mut out = vec![0u32; 7];
    assert_eq!(source.fill(&mut out, &kernel), 5);
    assert_eq!(amplitudes(&out), vec![1.0, 0.0, 0.0, 0.5, 0.0, 0.0, 0.0]);
}

#[test]
fn split_ends_drop_what_does_not_fit() {
    let kernel = Kernel::new(lfo, mix, clip);
    let (mut sink, mut source) = SignalPath::new(3, Filter::PassThrough).unwrap().split();
    assert_eq!(sink.write(&[1, 2, 3, 4, 5]), 3);
    let mut out = vec![9u32; 5];
    assert_eq!(source.fill(&mut out, &kernel), 3);
    assert_eq!(out, vec![1, 2, 3, SILENCE, SILENCE]);
    assert_eq!(source.fill(&mut out, &kernel), 0);
    assert_eq!(out, vec![SILENCE; 5]);
}

#[test]
fn split_keeps_what_waits() {
    let kernel = Kernel::new(lfo, mix, clip);
    let mut path = SignalPath::new(4, Filter::PassThrough).unwrap();
    path.capture(&[5, 6]);
    let (mut sink, mut source) = path.split();
    assert_eq!(sink.write(&[7, 8, 9]), 2);
    let mut out = vec![0u32; 4];
    assert_eq!(source.fill(&mut out, &kernel), 4);
    assert_eq!(out, vec![5, 6, 7, 8]);
}

#[test]
fn split_ends_take_turns() {
    let kernel = Kernel::new(lfo, mix, clip);
    let (mut sink, mut source) = SignalPath::new(4, Filter::PassThrough).unwrap().split();
    let mut got: Vec<u32> = Vec::new();
    let mut sent: u32 = 1;
    let mut out = vec![0u32; 3];
    while got.len() < 100 {
        while sent <= 100 && sink.write(&[sent]) == 1 {
            sent += 1;
        }
        let taken = source.fill(&mut out, &kernel);
        got.extend(&out[..taken]);
        assert_eq!(out[taken..], vec![SILENCE; 3 - taken][..]);
    }
    assert_eq!(got, (1..=100).collect::<Vec<u32>>());
}

fn config(variant: FilterVariant, delay_length: usize, queue_capacity: usize) -> Config {
    Config {
        filter_variant: variant,
        delay_length,
        decay_gain: 0.5f32.to_bits(),
        lfo_coefficient: (std::f32::consts::PI / 90.0).to_bits(),
        lfo_amplitude: 2.0f32.to_bits(),
        distortion_gain: 12.0f32.to_bits(),
        saturation_bound: 0.7f32.to_bits(),
        queue_capacity,
    }
}

#[test]
fn config_builds_the_filter_asked_for() {
    let kernel = Kernel::new(lfo, mix, clip);
    let mut delay = config(FilterVariant::Delay, 3, 5).build().unwrap();
    delay.capture(&words(&[1.0, 0.0, 0.0, 0.0, 0.0]));
    let mut out = vec![0u32; 5];
    delay.playback(&mut out, &kernel);
    assert_eq!(amplitudes(&out), vec![1.0, 0.0, 0.0, 0.5, 0.0]);

    let mut distort = config(FilterVariant::Distort, 0, 5).build().unwrap();
    distort.capture(&words(&[1.0, 0.01, -1.0]));
    let mut clipped = vec![0u32; 3];
    distort.playback(&mut clipped, &kernel);
    assert_eq!(amplitudes(&clipped), vec![0.7, 0.01 * 12.0, -0.7]);

    let mut plain = config(FilterVariant::PassThrough, 0, 5).build().unwrap();
    plain.capture(&[3, 4]);
    let mut same = vec![0u32; 2];
    plain.playback(&mut same, &kernel);
    assert_eq!(same, vec![3, 4]);

    let mut flange = config(FilterVariant::Flange, 64, 5).build().unwrap();
    flange.capture(&words(&[1.0, 0.0, 0.0, 0.0, 0.0]));
    let mut swept = vec![0u32; 5];
    assert_eq!(flange.playback(&mut swept, &kernel), 5);
    assert_eq!(amplitudes(&swept)[0], 1.0);
}

#[test]
fn config_refuses_a_delay_line_of_no_samples() {
    assert!(matches!(config(FilterVariant::Delay, 0, 5).build(), Err(ConfigError::ZeroLength)));
    assert!(matches!(config(FilterVariant::Flange, 0, 5).build(), Err(ConfigError::ZeroLength)));
    assert!(matches!(
        config(FilterVariant::Flange, 0, 5).build_filter(),
        Err(ConfigError::ZeroLength)
    ));
}

#[test]
fn config_refuses_lengths_beyond_the_limit() {
    assert!(matches!(
        config(FilterVariant::Delay, MAX_FRAMES + 1, 5).build(),
        Err(ConfigError::TooLong)
    ));
    assert!(matches!(
        config(FilterVariant::PassThrough, 0, MAX_FRAMES + 1).build(),
        Err(ConfigError::TooLong)
    ));
    assert!(matches!(
        SignalPath::new(MAX_FRAMES + 1, Filter::PassThrough),
        Err(ConfigError::TooLong)
    ));
}

#[test]
fn config_ignores_the_delay_length_where_no_line_is_asked_for() {
    assert!(config(FilterVariant::PassThrough, 0, 5).build().is_ok());
    assert!(config(FilterVariant::Distort, MAX_FRAMES + 1, 5).build().is_ok());
}

#[test]
fn config_names_the_filter_fault_before_the_queue() {
    assert!(matches!(
        config(FilterVariant::Delay, 0, MAX_FRAMES + 1).build(),
        Err(ConfigError::ZeroLength)
    ));
}

#[test]
fn device_is_the_one_wished_for_or_the_default() {
    assert_eq!(nth_device(None, 3), DeviceChoice::Default);
    assert_eq!(nth_device(Some(0), 3), DeviceChoice::Listed(0));
    assert_eq!(nth_device(Some(2), 3), DeviceChoice::Listed(2));
    assert_eq!(nth_device(Some(3), 3), DeviceChoice::Default);
    assert_eq!(nth_device(Some(0), 0), DeviceChoice::Default);
}
