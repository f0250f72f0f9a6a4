use frdm_server::algorithm::edge_scan::{scan_edges, scan_edges_from, EdgeScanError};
use frdm_server::algorithm::f32_distance::{distance_key_of, round_to_f32};
use frdm_server::algorithm::fine_contours::{dec, inc, merge, merge_contours, MergeError};
use frdm_server::algorithm::{Edges, Side};
use frdm_server::domain::Dot;

#[test]
fn scan_edges_finds_first_bright_rows_from_both_sides() {
    let data = [
        0, 200, 0, //
        0, 0, 0, //
        200, 0, 0,
    ];
    let (upper, lower) = scan_edges(&data, 3, 3, 100).unwrap();
    assert_eq!(upper, vec![Dot { x: 0, y: 2 }, Dot { x: 1, y: 0 }]);
    assert_eq!(lower, vec![Dot { x: 0, y: 2 }, Dot { x: 1, y: 0 }]);
}

#[test]
fn scan_edges_threshold_is_strict() {
    let data = [100, 101, 100, 100];
    let (upper, lower) = scan_edges(&data, 2, 2, 100).unwrap();
    assert_eq!(upper, vec![Dot { x: 1, y: 0 }]);
    assert_eq!(lower, vec![Dot { x: 1, y: 0 }]);
}

#[test]
fn scan_edges_fails_on_short_data() {
    let data = [0, 0, 0, 0, 0];
    assert_eq!(scan_edges(&data, 3, 3, 100), Err(EdgeScanError::OutOfImage));
}

#[test]
fn scan_edges_of_empty_frame_is_empty() {
    let (upper, lower) = scan_edges(&[], 0, 0, 10).unwrap();
    assert!(upper.is_empty() && lower.is_empty());
}

#[test]
fn edges_read_back_what_they_were_made_of() {
    let upper = vec![Dot { x: 0, y: 1 }, Dot { x: 1, y: 2 }];
    let lower = vec![Dot { x: 0, y: 9 }];
    let edges = Edges::new(upper.clone(), lower.clone());
    assert_eq!(edges.get(Side::Upper), upper);
    assert_eq!(edges.get(Side::Lower), lower);
    assert!(Edges::<usize>::default().get(Side::Upper).is_empty());
    let copy = edges.clone();
    assert!(copy.eq(&edges));
    assert!(!copy.eq(&Edges::default()));
}

#[test]
fn contour_indices_wrap_around() {
    assert_eq!(inc(3, 4), 0);
    assert_eq!(inc(1, 4), 2);
    assert_eq!(dec(0, 4), 3);
    assert_eq!(dec(2, 4), 1);
    assert_eq!(dec(inc(3, 4), 4), 3);
}

/// The bound on distance keys for a distance threshold.
fn within(threshold: f32) -> i64 {
    if threshold.is_nan() || threshold < 0.0 {
        -1
    } else if threshold == 0.0 {
        0
    } else {
        threshold.to_bits() as i64
    }
}

fn left() -> Vec<Dot<i32>> {
    [(0, 0), (5, 0), (10, 0), (10, 5), (10, 10), (5, 10), (0, 10), (0, 5)]
        .iter()
        .map(|&(x, y)| Dot { x, y })
        .collect()
}

fn right() -> Vec<Dot<i32>> {
    [(12, 0), (17, 0), (22, 0), (22, 5), (22, 10), (17, 10), (12, 10), (12, 5)]
        .iter()
        .map(|&(x, y)| Dot { x, y })
        .collect()
}

fn joined() -> Vec<Dot<i32>> {
    [(0, 10), (0, 5), (0, 0), (17, 0), (22, 0), (22, 5)].iter().map(|&(x, y)| Dot { x, y }).collect()
}

#[test]
fn merge_joins_contours_at_their_closest_points() {
    // within a distance of 3 pixels
    assert_eq!(merge(&left(), &right(), within(3.0)), Ok(joined()));
}

#[test]
fn merge_errors() {
    assert_eq!(merge(&left(), &right(), within(1.0)), Err(MergeError::TooFar));
    assert_eq!(merge(&left(), &right(), within(-3.0)), Err(MergeError::TooFar));
    assert_eq!(merge(&left(), &right(), within(f32::NAN)), Err(MergeError::TooFar));
    let short = vec![Dot { x: 11, y: 0 }, Dot { x: 11, y: 1 }, Dot { x: 11, y: 2 }];
    assert_eq!(merge(&left(), &short, within(10.0)), Err(MergeError::TooShort));
}

#[test]
fn merge_contours_drops_short_ones_and_merges_until_settled() {
    let short = vec![Dot { x: 50, y: 50 }, Dot { x: 51, y: 50 }, Dot { x: 50, y: 51 }];
    let merged = merge_contours(vec![left(), right(), short], within(3.0));
    assert_eq!(merged, vec![joined()]);
    let apart = merge_contours(vec![left(), right()], within(1.0));
    assert_eq!(apart, vec![left(), right()]);
}

#[test]
fn scan_edges_from_counts_pixels_at_the_threshold() {
    let data = [100, 101, 100, 100];
    let (upper, lower) = scan_edges_from(&data, 2, 2, 100).unwrap();
    assert_eq!(upper, vec![Dot { x: 0, y: 0 }, Dot { x: 1, y: 0 }]);
    assert_eq!(lower, vec![Dot { x: 0, y: 1 }, Dot { x: 1, y: 1 }]);
}

#[test]
fn scan_edges_from_zero_takes_the_first_and_last_rows() {
    let data = [0u8; 6];
    let (upper, lower) = scan_edges_from(&data, 3, 2, 0).unwrap();
    assert_eq!(upper, vec![Dot { x: 0, y: 0 }, Dot { x: 1, y: 0 }]);
    assert_eq!(lower, vec![Dot { x: 0, y: 2 }, Dot { x: 1, y: 2 }]);
    assert_eq!(scan_edges_from(&data[..5], 3, 2, 0), Err(EdgeScanError::OutOfImage));
}

fn f32_distance(a: Dot<i32>, b: Dot<i32>) -> f32 {
    (((b.x - a.x).pow(2)) as f32 + ((b.y - a.y).pow(2)) as f32).sqrt()
}

#[test]
fn distance_key_is_the_bit_pattern_of_the_f32_distance() {
    let o = Dot { x: 0, y: 0 };
    let mut samples = vec![(0, 0), (3, 4), (1, 1), (2, 5), (4095, 1), (4097, 3), (46340, 0), (46340, 46340), (30001, 17777), (-12345, 40000)];
    let mut seed: i64 = 7;
    for _ in 0..2000 {
        seed = (seed * 1103515245 + 12345) % 2147483648;
        let x = (seed % 92681) as i32 - 46340;
        seed = (seed * 1103515245 + 12345) % 2147483648;
        let y = (seed % 92681) as i32 - 46340;
        samples.push((x, y));
    }
    for (x, y) in samples {
        let p = Dot { x, y };
        assert_eq!(distance_key_of(&o, &p), f32_distance(o, p).to_bits() as i64, "at ({x}, {y})");
    }
}

#[test]
fn round_to_f32_rounds_to_nearest_even() {
    assert_eq!(round_to_f32(16_777_217), 16_777_216);
    assert_eq!(round_to_f32(16_777_219), 16_777_220);
    assert_eq!(round_to_f32(33_554_435), 33_554_436);
    for x in [0u64, 1, 12345, 16_777_215, 16_777_217, 2_147_483_647, 4_294_967_294, 8_589_934_591] {
        assert_eq!(round_to_f32(x), x as f32 as u64, "at {x}");
    }
}

#[test]
fn merge_contours_measures_only_between_long_contours() {
    // one wide contour, and a short one far away: no distance is measured within a
    // contour, nor to a contour that is dropped
    let wide: Vec<Dot<i32>> =
        [(0, 0), (60000, 0), (60000, 10), (0, 10)].iter().map(|&(x, y)| Dot { x, y }).collect();
    let far = vec![Dot { x: -90000, y: 0 }, Dot { x: -90001, y: 0 }, Dot { x: -90000, y: 1 }];
    assert_eq!(merge_contours(vec![wide.clone(), far], within(3.0)), vec![wide]);
}

#[test]
fn scan_edges_reads_only_the_pixels_of_the_frame() {
    let frame = [0u8, 200, 0, 0, 0, 0, 200, 0, 0];
    let mut longer = frame.to_vec();
    longer.extend_from_slice(&[255, 255, 255]);
    assert_eq!(scan_edges(&frame, 3, 3, 100), scan_edges(&longer, 3, 3, 100));
    assert_eq!(scan_edges_from(&frame, 3, 3, 200), scan_edges_from(&longer, 3, 3, 200));
}
