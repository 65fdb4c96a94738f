use wav_overview::bucket::{window_sum_squares, BucketAccumulator, OverviewRecord};
use wav_overview::normalize::normalize_16_bit_rms;
use wav_overview::pipeline::{
    build_summary, normalized_rms_records, overview_records, resolve_bucket_size, OverviewError,
};
use wav_overview::render::{isqrt_u128, range_band_coords, render_rms_columns, rms_floor};

fn rms_of(sq_sum: u128, count: usize) -> f64 {
    (sq_sum as f64 / count as f64).sqrt()
}

#[test]
fn record_count_is_floor_of_n_over_b() {
    let samples: Vec<i32> = (0..10).collect();
    assert_eq!(overview_records(&samples, 3).len(), 3);
    assert_eq!(overview_records(&samples, 10).len(), 1);
    assert_eq!(overview_records(&samples, 11).len(), 0);
    assert_eq!(overview_records(&samples, 1).len(), 10);
    assert_eq!(normalized_rms_records(&samples, 4).len(), 2);
}

#[test]
fn trailing_partial_bucket_is_dropped() {
    // Samples beyond the last full multiple of the bucket size contribute
    // nothing: the eighth sample would dominate every aggregate.
    let samples: Vec<i32> = vec![1, 1, 1, 1, 1, 1, 1000];
    let records = overview_records(&samples, 3);
    assert_eq!(records.len(), 2);
    for rec in &records {
        assert_eq!(rec.max, 1);
        assert_eq!(rec.sq_sum, 3);
    }
}

#[test]
fn zero_bucket_rms_is_zero() {
    let samples: Vec<i32> = vec![0, 0, 0, 0];
    let records = overview_records(&samples, 4);
    assert_eq!(records.len(), 1);
    assert_eq!(records[0].sq_sum, 0);
    assert_eq!(rms_of(records[0].sq_sum, records[0].count), 0.0);
    assert_eq!(rms_floor(&records[0]), 0);
}

#[test]
fn full_scale_bucket_rms() {
    let samples: Vec<i32> = vec![32767, 32767, 32767];
    let records = overview_records(&samples, 3);
    assert_eq!(records.len(), 1);
    let rms = rms_of(records[0].sq_sum, records[0].count);
    assert!((rms - 32767.0).abs() < 1e-3);
    assert_eq!(rms_floor(&records[0]), 32767);
}

#[test]
fn normalize_values() {
    assert_eq!(normalize_16_bit_rms(0), 0);
    assert_eq!(normalize_16_bit_rms(32767), 20);
    assert_eq!(normalize_16_bit_rms(-5), 0);
    assert_eq!(normalize_16_bit_rms(40000), 20);
}

#[test]
fn seeded_zero_bucket() {
    // No sample is negative, yet min reports the 0 seed, not 3.
    let samples: Vec<i32> = vec![5, 10, 3];
    let records = overview_records(&samples, 3);
    assert_eq!(records.len(), 1);
    assert_eq!(records[0].min, 0);
    assert_eq!(records[0].max, 10);
    assert_eq!(records[0].sq_sum, 134);
    assert_eq!(records[0].count, 3);
    let rms = rms_of(records[0].sq_sum, records[0].count);
    assert!((rms - 6.683).abs() < 1e-3);
    assert_eq!(rms_floor(&records[0]), 6);
}

#[test]
fn alternating_signs() {
    let samples: Vec<i32> = vec![1, -1, 1, -1, 1, -1];
    let records = overview_records(&samples, 3);
    assert_eq!(records.len(), 2);
    for rec in &records {
        assert_eq!(rec.min, -1);
        assert_eq!(rec.max, 1);
        assert_eq!(rms_of(rec.sq_sum, rec.count), 1.0);
    }
}

#[test]
fn renderer_insufficient_records() {
    let samples: Vec<i32> = vec![5, 10, 3, 5, 10, 3, 5, 10, 3];
    let records = overview_records(&samples, 3);
    assert_eq!(records.len(), 3);
    let (segments, insufficient) = render_rms_columns(&records, 5, 100);
    assert_eq!(segments.len(), 3);
    assert!(insufficient);
    for (i, seg) in segments.iter().enumerate() {
        assert_eq!(seg.x, i);
    }
}

#[test]
fn renderer_full_width() {
    let samples: Vec<i32> = vec![1, 2, 3, 4, 5, 6];
    let records = overview_records(&samples, 2);
    assert_eq!(records.len(), 3);
    let (segments, insufficient) = render_rms_columns(&records, 2, 100);
    assert_eq!(segments.len(), 2);
    assert!(!insufficient);
}

#[test]
fn renderer_column_values() {
    // A silent bucket has RMS 0, which shifts to 32768 and puts the band
    // exactly at mid-height: 32768 * 100 / 65536 == 50.
    let samples: Vec<i32> = vec![0, 0];
    let records = overview_records(&samples, 2);
    let (segments, _) = render_rms_columns(&records, 1, 100);
    assert_eq!(segments.len(), 1);
    assert_eq!(segments[0].rms_y, 50);
    assert_eq!(segments[0].low_rms_y, 50);
    // A full-scale bucket clamps to 32767, shifts to 65535:
    // 65535 * 100 / 65536 == 99, so the band spans 1..=99.
    let loud: Vec<i32> = vec![32767, 32767];
    let loud_records = overview_records(&loud, 2);
    let (loud_segments, _) = render_rms_columns(&loud_records, 1, 100);
    assert_eq!(loud_segments[0].rms_y, 1);
    assert_eq!(loud_segments[0].low_rms_y, 99);
}

#[test]
fn streaming_matches_batch() {
    let samples: Vec<i32> = vec![3, -7, 12, 0, 5, -2, 9, 9, -31, 4, 4];
    let mut acc = BucketAccumulator::new();
    let mut streamed: Vec<OverviewRecord> = Vec::new();
    for &s in &samples {
        if let Some(rec) = acc.push(s, 4) {
            streamed.push(rec);
        }
    }
    let batch = overview_records(&samples, 4);
    assert_eq!(streamed, batch);
    for (s, b) in streamed.iter().zip(batch.iter()) {
        assert_eq!(rms_of(s.sq_sum, s.count), rms_of(b.sq_sum, b.count));
    }
}

#[test]
fn normalized_mode_rescales_first() {
    // normalize(16384) == 16384 / 1638 == 10, so the normalized-mode RMS is
    // 10.0 while the full-overview RMS of the same bucket is 16384.0.
    let samples: Vec<i32> = vec![16384, 16384, 16384];
    let rms_only = normalized_rms_records(&samples, 3);
    assert_eq!(rms_only.len(), 1);
    assert_eq!(rms_only[0].sq_sum, 300);
    assert_eq!(rms_only[0].count, 3);
    assert_eq!(rms_of(rms_only[0].sq_sum, rms_only[0].count), 10.0);
    let full = overview_records(&samples, 3);
    assert_eq!(rms_of(full[0].sq_sum, full[0].count), 16384.0);
    assert_ne!(
        rms_of(rms_only[0].sq_sum, rms_only[0].count),
        rms_of(full[0].sq_sum, full[0].count)
    );
}

#[test]
fn resolve_bucket_size_cases() {
    assert_eq!(resolve_bucket_size(250, 100, 800), Ok(250));
    assert_eq!(resolve_bucket_size(0, 8000, 800), Ok(10));
    assert_eq!(
        resolve_bucket_size(0, 500, 800),
        Err(OverviewError::DivideByZero)
    );
    assert_eq!(
        resolve_bucket_size(0, 500, 0),
        Err(OverviewError::DivideByZero)
    );
}

#[test]
fn build_summary_fields() {
    let samples: Vec<i32> = vec![1, 2, 3, 4, 5, 6, 7];
    let summary = build_summary(String::from("test.wav"), 44100, 16, &samples, 3);
    assert_eq!(summary.source, "test.wav");
    assert_eq!(summary.sample_rate, 44100);
    assert_eq!(summary.bit_depth, 16);
    assert_eq!(summary.bucket_size, 3);
    assert_eq!(summary.total_samples, 7);
    assert_eq!(summary.bucket_count, 2);
    assert_eq!(summary.processed_samples, 6);
    assert_eq!(summary.records.len(), 2);
}

#[test]
fn isqrt_values() {
    assert_eq!(isqrt_u128(0), 0);
    assert_eq!(isqrt_u128(1), 1);
    assert_eq!(isqrt_u128(3), 1);
    assert_eq!(isqrt_u128(4), 2);
    assert_eq!(isqrt_u128(44), 6);
    assert_eq!(isqrt_u128(1 << 80), 1 << 40);
    assert_eq!(isqrt_u128(u128::MAX), u64::MAX);
}

#[test]
fn range_band_values() {
    let samples: Vec<i32> = vec![-5, 10, 2];
    let records = overview_records(&samples, 3);
    let (lo, hi) = range_band_coords(&records[0]);
    assert_eq!(lo, 32763);
    assert_eq!(hi, 32778);
    let extreme = OverviewRecord {
        min: -40000,
        max: 40000,
        sq_sum: 0,
        count: 1,
    };
    let (clamped_lo, clamped_hi) = range_band_coords(&extreme);
    assert_eq!(clamped_lo, 0);
    assert_eq!(clamped_hi, 65535);
}

#[test]
fn accumulator_emits_and_resets() {
    let mut acc = BucketAccumulator::new();
    assert_eq!(acc.push(4, 3), None);
    assert_eq!(acc.push(-2, 3), None);
    assert_eq!(acc.count, 2);
    let rec = acc.push(1, 3).expect("third sample closes the bucket");
    assert_eq!(rec.min, -2);
    assert_eq!(rec.max, 4);
    assert_eq!(rec.sq_sum, 21);
    assert_eq!(rec.count, 3);
    assert_eq!(acc.count, 0);
    assert_eq!(acc.window.len(), 0);
}

#[test]
fn accumulator_reset_drops_pending_window() {
    let mut acc = BucketAccumulator::new();
    assert_eq!(acc.push(7, 5), None);
    assert_eq!(acc.push(-9, 5), None);
    acc.reset();
    assert_eq!(acc.count, 0);
    assert_eq!(acc.min, 0);
    assert_eq!(acc.max, 0);
    assert_eq!(acc.window.len(), 0);
}

#[test]
fn window_sum_squares_value() {
    let window: Vec<i32> = vec![3, -4];
    assert_eq!(window_sum_squares(&window), 25);
    let extremes: Vec<i32> = vec![i32::MIN, i32::MAX];
    assert_eq!(
        window_sum_squares(&extremes),
        (1u128 << 62) + ((i32::MAX as u128) * (i32::MAX as u128))
    );
}
