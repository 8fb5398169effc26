use binaural::acoustics::{Acoustics, PipelineError};
use binaural::attenuation::loudness_transform;
use binaural::geometry::{
    delay, distance, loudness_factor, position, squared_distance, Position, LOUDNESS_NUMERATOR,
    LOUDNESS_UNITS,
};
use binaural::mixer::{
    binaural_mix, ear_positions, render_ear, static_transform, stereo_zip, trajectory_transform,
    Stereo,
};
use binaural::resample::resample;
use binaural::retime::{retime, Untimed};

const RATE: usize = 44100;

fn sine_440() -> Vec<i32> {
    let mut original = Vec::new();
    for i in 0..RATE {
        let t = i as f64 / RATE as f64;
        let sample = (t * 440.0 * 2.0 * std::f64::consts::PI).sin();
        original.push((sample * i16::MAX as f64) as i32);
    }
    original
}

fn attenuate_by_hand(sample: i32, d2: i64) -> i64 {
    // integer division in Rust rounds toward zero
    (sample as i64 * 1_000_000) / d2
}

#[test]
fn test_distance() {
    let u = position(3000, 0, 1000);
    let x = position(0, 0, 0);
    let y = position(0, 0, 1000);
    let z = position(0, 10000, 0);
    let a = position(3000, 4000, 0);
    assert!(distance(&x, &y) == 1000);
    assert!(distance(&x, &z) == 10000);
    assert!(distance(&u, &y) == 3000);
    assert!(distance(&a, &x) == 5000);
}

#[test]
fn test_loudness_factor() {
    let x = position(0, 0, 0);
    let y = position(0, 0, 1000);
    let z = position(0, 0, 2000);
    assert!(loudness_factor(&x, &y) == LOUDNESS_UNITS);
    assert!(loudness_factor(&x, &z) == LOUDNESS_UNITS / 4);
}

#[test]
fn distance_is_symmetric_and_zero_on_itself() {
    let a = position(-1234, 567, 89);
    let b = position(4321, -765, 98);
    assert_eq!(distance(&a, &b), distance(&b, &a));
    assert_eq!(distance(&a, &a), 0);
    assert_eq!(squared_distance(&a, &b), squared_distance(&b, &a));
}

#[test]
fn distance_rounds_down_and_spans_the_coordinate_range() {
    // sqrt(2) m = 1414.21... mm
    assert_eq!(distance(&position(0, 0, 0), &position(1000, 1000, 0)), 1414);
    let lo = position(i32::MIN, i32::MIN, i32::MIN);
    let hi = position(i32::MAX, i32::MAX, i32::MAX);
    let d = distance(&lo, &hi) as u128;
    let d2 = squared_distance(&lo, &hi);
    assert_eq!(d2, 3 * 0xffff_ffffu128 * 0xffff_ffffu128);
    assert!(d * d <= d2 && d2 < (d + 1) * (d + 1));
}

#[test]
fn loudness_factor_falls_with_distance() {
    let x = position(0, 0, 0);
    assert_eq!(loudness_factor(&x, &position(0, 0, 1)), LOUDNESS_NUMERATOR);
    assert_eq!(loudness_factor(&x, &position(0, 3000, 0)), 111_111_111_111_111_111_111_111);
    assert!(loudness_factor(&x, &position(0, 500, 0)) > loudness_factor(&x, &position(0, 600, 0)));
}

#[test]
fn loudness_factor_stays_positive_far_away() {
    let x = position(0, 0, 0);
    // 2 km: 1 / 4_000_000 per square metre
    assert_eq!(loudness_factor(&x, &position(2_000_000, 0, 0)), 250_000_000_000_000_000);
    assert!(loudness_factor(&x, &position(1_500_000, 0, 0)) > 0);
    let lo = position(i32::MIN, i32::MIN, i32::MIN);
    let hi = position(i32::MAX, i32::MAX, i32::MAX);
    let f = loudness_factor(&lo, &hi);
    let d2 = squared_distance(&lo, &hi);
    assert!(f > 0);
    assert!(f * d2 <= LOUDNESS_NUMERATOR && LOUDNESS_NUMERATOR < (f + 1) * d2);
}

#[test]
fn delay_is_distance_over_speed_in_ticks() {
    let a = Acoustics::standard();
    // 3.43 m at 343 m/s is 10 ms, i.e. 441 frames of 343000 ticks
    let d = delay(&position(0, 0, 3430), &position(0, 0, 0), &a);
    assert_eq!(d, 3430 * 44100);
    assert_eq!(d, 441 * a.frame_period() as u128);
}

#[test]
fn acoustics_rejects_zero_rates() {
    assert!(Acoustics::new(0, 44100, 50).is_none());
    assert!(Acoustics::new(343_000, 0, 50).is_none());
    assert_eq!(
        Acoustics::new(343_000, 44100, 50),
        Some(Acoustics { speed_of_sound: 343_000, sample_rate: 44100, ear_offset: 50 })
    );
}

#[test]
fn attenuation_is_elementwise_and_exact() {
    let sound = vec![1000, -1001, 7];
    let src = vec![position(0, 0, 2000), position(0, 2000, 0), position(1000, 0, 0)];
    let lst = vec![position(0, 0, 0); 3];
    let out = loudness_transform(&sound, &src, &lst);
    assert_eq!(out, vec![250, -250, 7]);
}

#[test]
fn attenuation_truncates_to_the_shortest() {
    let sound = vec![1000, 2000, 3000];
    let src = vec![position(0, 0, 1000), position(0, 0, 1000)];
    let lst = vec![position(0, 0, 0); 5];
    assert_eq!(loudness_transform(&sound, &src, &lst), vec![1000, 2000]);
}

#[test]
fn retime_adds_the_delay_to_each_frame() {
    let a = Acoustics::standard();
    let src = vec![position(0, 0, 3430); 3];
    let out = retime(&vec![5, 6, 7], &src, &position(0, 0, 0), &a).unwrap();
    let d = 3430 * 44100;
    assert_eq!(
        out,
        vec![
            Untimed { sample: 5, time: d },
            Untimed { sample: 6, time: 343_000 + d },
            Untimed { sample: 7, time: 2 * 343_000 + d },
        ]
    );
}

#[test]
fn retime_reports_time_overflow() {
    let a = Acoustics::new(u32::MAX, u32::MAX, 0).unwrap();
    let src = vec![position(i32::MAX, i32::MAX, i32::MAX)];
    let r = retime(&vec![1], &src, &position(i32::MIN, i32::MIN, i32::MIN), &a);
    assert_eq!(r, Err(PipelineError::TimeOverflow));
}

#[test]
fn resample_identity_without_delay() {
    let period = 343_000u64;
    let samples: Vec<i64> = vec![3, -7, 11, 0, 42, -42];
    let timed: Vec<Untimed> = samples
        .iter()
        .enumerate()
        .map(|(i, s)| Untimed { sample: *s, time: i as u64 * period })
        .collect();
    assert_eq!(resample(&timed, period), Ok(samples));
}

#[test]
fn resample_duplicate_timestamps() {
    let timed = vec![
        Untimed { sample: 10, time: 0 },
        Untimed { sample: 20, time: 0 },
        Untimed { sample: 30, time: 5 },
    ];
    assert_eq!(resample(&timed, 5), Ok(vec![20, 30]));
}

#[test]
fn resample_first_delay_nonzero() {
    let timed = vec![Untimed { sample: 100, time: 7 }, Untimed { sample: 200, time: 17 }];
    assert_eq!(resample(&timed, 5), Ok(vec![100, 100, 130, 180]));
}

#[test]
fn resample_rounds_toward_the_earlier_sample() {
    let timed = vec![Untimed { sample: 0, time: 0 }, Untimed { sample: -10, time: 3 }];
    assert_eq!(resample(&timed, 1), Ok(vec![0, -3, -6, -10]));
}

#[test]
fn resample_reorders_are_tolerated() {
    let timed = vec![
        Untimed { sample: 1, time: 10 },
        Untimed { sample: 2, time: 4 },
        Untimed { sample: 3, time: 12 },
    ];
    let out = resample(&timed, 4).unwrap();
    assert_eq!(out.len(), 4);
}

#[test]
fn resample_empty_input() {
    assert_eq!(resample(&vec![], 5), Err(PipelineError::EmptyInput));
}

#[test]
fn stereo_zip_truncates_to_the_shorter() {
    let l = vec![1, 2, 3];
    let r = vec![4, 5];
    assert_eq!(
        stereo_zip(&l, &r),
        vec![Stereo { left: 1, right: 4 }, Stereo { left: 2, right: 5 }]
    );
    assert_eq!(stereo_zip(&r, &vec![]).len(), 0);
}

#[test]
fn ear_positions_offset_along_x() {
    let p = position(100, 2, 3);
    assert_eq!(ear_positions(&p, 50), Some((position(50, 2, 3), position(150, 2, 3))));
    assert_eq!(ear_positions(&position(i32::MAX, 0, 0), 50), None);
}

#[test]
fn render_ear_delays_and_holds_the_first_sample() {
    // 1 m/s, 1 Hz: one frame is 1000 ticks, and 1 m of distance delays by 1000 ticks
    let a = Acoustics::new(1000, 1, 0).unwrap();
    let src = vec![position(0, 1000, 0); 3];
    let out = render_ear(&vec![10, 20, 30], &src, &position(0, 0, 0), &a);
    assert_eq!(out, Ok(vec![10, 10, 20, 30]));
}

#[test]
fn render_ear_errors() {
    let a = Acoustics::standard();
    let here = position(0, 0, 0);
    assert_eq!(render_ear(&vec![], &vec![here], &here, &a), Err(PipelineError::EmptyInput));
    assert_eq!(
        render_ear(&vec![1, 2], &vec![position(5, 0, 0), here], &here, &a),
        Err(PipelineError::DegenerateGeometry)
    );
}

#[test]
fn static_transform_attenuates_delays_and_interpolates() {
    let a = Acoustics::new(1000, 1, 500).unwrap();
    let (l, r) =
        static_transform(&vec![10, 20, 30], &position(0, 1000, 0), &position(0, 0, 0), &a).unwrap();
    assert_eq!(l, vec![8, 8, 15, 23]);
    assert_eq!(r, vec![8, 8, 15, 23]);
}

#[test]
fn binaural_mix_reports_ears_out_of_range() {
    let a = Acoustics::standard();
    let src = vec![position(0, 1000, 0)];
    assert_eq!(
        binaural_mix(&vec![1], &src, &position(i32::MIN, 0, 0), &a),
        Err(PipelineError::PositionOutOfRange)
    );
}

#[test]
fn binaural_mix_left_and_right_differ_for_an_offset_source() {
    let a = Acoustics::standard();
    let src = vec![position(2000, 0, 0); 100];
    let samples: Vec<i32> = (0..100).map(|i| 1000 * (i % 7 - 3)).collect();
    let frames = binaural_mix(&samples, &src, &position(0, 0, 0), &a).unwrap();
    let left = render_ear(&samples, &src, &position(-50, 0, 0), &a).unwrap();
    let right = render_ear(&samples, &src, &position(50, 0, 0), &a).unwrap();
    assert_eq!(frames.len(), left.len().min(right.len()));
    for (i, f) in frames.iter().enumerate() {
        assert_eq!(f.left, left[i]);
        assert_eq!(f.right, right[i]);
    }
    let peak_l = left.iter().map(|v| v.abs()).max().unwrap();
    let peak_r = right.iter().map(|v| v.abs()).max().unwrap();
    assert!(peak_r > peak_l);
}

#[test]
fn trajectory_transform_reports_coincidence() {
    let src = vec![position(0, 0, 0)];
    let ok = vec![position(1000, 0, 0)];
    assert_eq!(
        trajectory_transform(&vec![1], &src, &ok, &src),
        Err(PipelineError::DegenerateGeometry)
    );
}

#[test]
fn trajectory_transform_reports_empty_input() {
    let src = vec![position(0, 0, 0)];
    let ear = vec![position(1000, 0, 0)];
    assert_eq!(trajectory_transform(&vec![], &src, &ear, &ear), Err(PipelineError::EmptyInput));
    assert_eq!(
        trajectory_transform(&vec![1], &src, &ear, &vec![]),
        Err(PipelineError::EmptyInput)
    );
    assert_eq!(trajectory_transform(&vec![1000], &src, &ear, &ear), Ok((vec![1000], vec![1000])));
}

#[test]
fn test_stationary() {
    let original = sine_440();
    let right_ear: Vec<Position> = std::iter::repeat(position(30, 0, 0)).take(RATE).collect();
    let left_ear: Vec<Position> = std::iter::repeat(position(-30, 0, 0)).take(RATE).collect();
    let source: Vec<Position> = std::iter::repeat(position(5000, 1000, 0)).take(RATE).collect();

    let left = loudness_transform(&original, &source, &left_ear);
    let right = loudness_transform(&original, &source, &right_ear);
    assert_eq!(left.len(), RATE);
    assert_eq!(right.len(), RATE);

    let (tl, tr) = trajectory_transform(&original, &source, &left_ear, &right_ear).unwrap();
    assert_eq!(tl, left);
    assert_eq!(tr, right);

    let d2_left = 5030i64 * 5030 + 1000 * 1000;
    let d2_right = 4970i64 * 4970 + 1000 * 1000;
    for t in 0..RATE {
        assert_eq!(left[t], attenuate_by_hand(original[t], d2_left));
        assert_eq!(right[t], attenuate_by_hand(original[t], d2_right));
    }
    // the source is on the right: the left ear is farther and quieter
    let peak_l = left.iter().map(|v| v.abs()).max().unwrap() as f64;
    let peak_r = right.iter().map(|v| v.abs()).max().unwrap() as f64;
    let expected = d2_right as f64 / d2_left as f64;
    assert!(((peak_l / peak_r) - expected).abs() < 1e-3);
}

#[test]
fn test_moving() {
    let original = sine_440();
    let mut source = Vec::new();
    for i in 0..RATE {
        let t = i as f64 / RATE as f64;
        source.push(position((-10000.0 + t * 20000.0).round() as i32, 1000, 0));
    }
    let right_ear: Vec<Position> = std::iter::repeat(position(30, 0, 0)).take(RATE).collect();
    let left_ear: Vec<Position> = std::iter::repeat(position(-30, 0, 0)).take(RATE).collect();

    let left = loudness_transform(&original, &source, &left_ear);
    let right = loudness_transform(&original, &source, &right_ear);
    assert_eq!(left.len(), RATE);
    assert_eq!(right.len(), RATE);

    // the loudness factor rises while the source approaches and falls once it has passed
    let factor: Vec<u128> = source.iter().map(|s| loudness_factor(s, &left_ear[0])).collect();
    let closest = source.iter().position(|s| s.x >= -30).unwrap();
    for i in 1..closest {
        assert!(factor[i] >= factor[i - 1]);
    }
    for i in closest + 1..RATE {
        assert!(factor[i] <= factor[i - 1]);
    }

    // the delay changes by far less than one frame from one sample to the next
    let a = Acoustics::standard();
    for i in 1..RATE {
        let d0 = delay(&source[i - 1], &left_ear[0], &a) as i128;
        let d1 = delay(&source[i], &left_ear[0], &a) as i128;
        assert!((d1 - d0).abs() < a.frame_period() as i128);
    }

    // resampling grows the stream by the last sample's delay, in whole frames
    let heard = render_ear(&original, &source, &left_ear[0], &a).unwrap();
    let last_delay = delay(&source[RATE - 1], &left_ear[0], &a);
    let extra = (last_delay / a.frame_period() as u128) as usize;
    assert_eq!(heard.len(), RATE + extra);
    // about 10 m at 343 m/s
    assert!(extra > 1250 && extra < 1350);
}
