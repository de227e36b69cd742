use dilay::controller::DelayStrategy;
use dilay::engine::StereoDelay;
use dilay::mapping::samples_for;

#[test]
fn test() {
    let mut plugin: StereoDelay<f32> = StereoDelay::new(44100, DelayStrategy::Offset, 0.);
    plugin.set_sample_rate(44100);
    let i1 = vec![0.0f32; 512];
    let i2 = vec![0.0f32; 512];
    let (o1, o2) = plugin.process(&i1, &i2);
    assert_eq!(o1.len(), 512);
    assert_eq!(o2.len(), 512);
}

#[test]
fn samples_for_exact_values() {
    // round(rate * (value + 200) / 2000): the 100 ms..600 ms curve at
    // 44100 Hz.
    assert_eq!(samples_for(0, 44100), 4410);
    assert_eq!(samples_for(500, 44100), 15435);
    assert_eq!(samples_for(1000, 44100), 26460);
    // And at the lowest admissible rate, the shortest delay is one sample.
    assert_eq!(samples_for(0, 5), 1);
}

#[test]
fn samples_for_monotone_in_value_and_rate() {
    let mut prev: usize = 0;
    for value in [0u32, 100, 250, 500, 750, 1000] {
        let s = samples_for(value, 48000);
        assert!(prev <= s);
        prev = s;
    }
    let mut prev: usize = 0;
    for rate in [5u32, 8000, 22050, 44100, 48000, 96000, 192000] {
        let s = samples_for(300, rate);
        assert!(prev <= s);
        prev = s;
    }
}

#[test]
fn stereo_lines_share_delay() {
    for strategy in [DelayStrategy::Offset, DelayStrategy::Reallocating] {
        let mut engine: StereoDelay<f32> = StereoDelay::new(48000, strategy, 0.);
        let (left, right) = engine.delay_lengths();
        assert_eq!(left, right);
        for value in [0u32, 333, 1000, 42] {
            engine.set_parameter(value);
            engine.refresh_delay();
            let (left, right) = engine.delay_lengths();
            assert_eq!(left, right);
            assert_eq!(left, samples_for(value, 48000));
        }
    }
}

#[test]
fn parameter_clamped_not_rejected() {
    let mut engine: StereoDelay<f32> = StereoDelay::new(44100, DelayStrategy::Offset, 0.);
    engine.set_parameter(2000);
    assert_eq!(engine.get_parameter(), 1000);
    engine.set_parameter(7);
    assert_eq!(engine.get_parameter(), 7);
}

#[test]
fn engine_delays_by_one_at_min_rate() {
    // At 5 frames per second the default 100 ms delay is one sample, so
    // the delayed stream is the input shifted by one frame.
    for strategy in [DelayStrategy::Offset, DelayStrategy::Reallocating] {
        let mut engine: StereoDelay<u64> = StereoDelay::new(5, strategy, 0);
        let xs = vec![1u64, 2, 3, 4];
        let ys = vec![5u64, 6, 7, 8];
        let (dx, dy) = engine.process(&xs, &ys);
        assert_eq!(dx, vec![0, 1, 2, 3]);
        assert_eq!(dy, vec![0, 5, 6, 7]);
    }
}

#[test]
fn sample_rate_rebuild_rederives_delay() {
    let mut engine: StereoDelay<f32> = StereoDelay::new(44100, DelayStrategy::Reallocating, 0.);
    engine.set_sample_rate(96000);
    let (left, right) = engine.delay_lengths();
    assert_eq!(left, samples_for(0, 96000));
    assert_eq!(right, left);
}

#[test]
fn dry_mix_passthrough_before_delay_fills() {
    // With a silent history the delayed signal is all zeros, so the mix
    // `output = input + delayed` passes the input through unchanged until
    // the delay has filled.
    let mut engine: StereoDelay<f32> = StereoDelay::new(5, DelayStrategy::Offset, 0.);
    let xs = vec![0.5f32];
    let ys = vec![-0.25f32];
    let (dx, dy) = engine.process(&xs, &ys);
    let out_x: Vec<f32> = xs.iter().zip(dx.iter()).map(|(i, d)| i + d).collect();
    let out_y: Vec<f32> = ys.iter().zip(dy.iter()).map(|(i, d)| i + d).collect();
    assert_eq!(out_x, xs);
    assert_eq!(out_y, ys);
}
