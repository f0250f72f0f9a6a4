use frdm_server::algorithm::auto_correction::{clipped_gray_range, cumulative_histogram};
use frdm_server::algorithm::buffer::FrameDelay;
use frdm_server::algorithm::detecting_contours::{DetectingContours, PixelImage};
use frdm_server::algorithm::graham::{angle_order, FindStart, Sort};
use frdm_server::algorithm::mat_type::depth_name;
use frdm_server::algorithm::{BitwiseAndConf, Bond, CroppingConf, MatType, ResultCtx, RopeDefectCtx};
use frdm_server::algorithm::RopeDefectKind;
use frdm_server::domain::{Dot, Eval};
use frdm_server::infrostructure::camera::CameraResolution;
use std::cmp::Ordering;

#[test]
fn find_start_picks_first_lowest_row() {
    let points = vec![Dot { x: 4, y: 3 }, Dot { x: 1, y: 1 }, Dot { x: 7, y: 1 }, Dot { x: 0, y: 5 }];
    let ctx = FindStart::new(points.clone()).eval(());
    assert_eq!(ctx.points, points);
    assert_eq!(ctx.start, 1);
}

#[test]
fn angle_order_follows_the_cross_product() {
    let o = Dot { x: 0, y: 0 };
    assert_eq!(angle_order(&o, &Dot { x: 1, y: 0 }, &Dot { x: 0, y: 1 }), Ordering::Greater);
    assert_eq!(angle_order(&o, &Dot { x: 0, y: 1 }, &Dot { x: 1, y: 0 }), Ordering::Less);
    assert_eq!(angle_order(&o, &Dot { x: 2, y: 2 }, &Dot { x: 1, y: 1 }), Ordering::Equal);
}

#[test]
fn sort_orders_points_by_angle_around_the_start() {
    let points = vec![Dot { x: 2, y: 0 }, Dot { x: 0, y: 2 }, Dot { x: 3, y: 1 }, Dot { x: 2, y: 2 }];
    let ctx = Sort::new(FindStart::new(points)).eval();
    assert_eq!(ctx.start, 0);
    // around (2, 0): the cross product puts (0, 2) before (2, 2) before (3, 1)
    assert_eq!(
        ctx.points,
        vec![Dot { x: 2, y: 0 }, Dot { x: 0, y: 2 }, Dot { x: 2, y: 2 }, Dot { x: 3, y: 1 }]
    );
    let origin = Dot { x: 2, y: 0 };
    for w in ctx.points.windows(2) {
        assert_ne!(angle_order(&origin, &w[0], &w[1]), Ordering::Greater);
    }
}

#[test]
fn sort_keeps_the_order_of_points_of_equal_angle() {
    let points = vec![Dot { x: 0, y: 0 }, Dot { x: 2, y: 2 }, Dot { x: 1, y: 1 }, Dot { x: -1, y: 1 }];
    let ctx = Sort::new(FindStart::new(points)).eval();
    assert_eq!(
        ctx.points,
        vec![Dot { x: 0, y: 0 }, Dot { x: -1, y: 1 }, Dot { x: 2, y: 2 }, Dot { x: 1, y: 1 }]
    );
}

#[test]
fn mat_type_depth_channels_code() {
    assert_eq!(MatType::Cv8uc1.depth(), 8);
    assert_eq!(MatType::Cv8uc1.channels(), 1);
    assert_eq!(MatType::Cv8uc1.code(), 0);
    assert_eq!(MatType::Cv8uc3.code(), 16);
    assert_eq!(MatType::Cv32fc4.depth(), 32);
    assert_eq!(MatType::Cv32fc4.channels(), 4);
    assert_eq!(MatType::Cv64fc2.code(), 14);
}

#[test]
fn depth_name_of_codes() {
    assert_eq!(depth_name(0), "CV_8UC1");
    assert_eq!(depth_name(16), "CV_8UC3");
    assert_eq!(depth_name(7), "CV_16FC1");
    assert_eq!(depth_name(31), "CV_16FC4");
    assert_eq!(depth_name(32), "32 - Unknown color depth");
    assert_eq!(depth_name(-1), "-1 - Unknown color depth");
}

#[test]
fn frame_delay_gives_each_frame_back_after_len_frames() {
    let mut delay = FrameDelay::new(2);
    assert_eq!(delay.push(1), None);
    assert_eq!(delay.push(2), None);
    assert_eq!(delay.push(3), Some(1));
    assert_eq!(delay.push(4), Some(2));
    let mut none = FrameDelay::new(0);
    assert_eq!(none.push('a'), Some('a'));
}

#[test]
fn confs_and_stores() {
    assert_eq!(
        CroppingConf::default(),
        CroppingConf { x: 0, width: 1920, y: 0, height: 1200 }
    );
    let c = CroppingConf::new(10, 1900, -3, (1i64 << 32) + 7);
    assert_eq!(c, CroppingConf { x: 10, width: 1900, y: -3, height: 7 });
    assert_eq!(BitwiseAndConf::new(), BitwiseAndConf::default());
    assert_eq!(CameraResolution::default(), CameraResolution { width: 0, height: 0 });
    let r: ResultCtx<u8> = ResultCtx::default();
    assert_eq!(r.val, 0);
    let d: RopeDefectCtx<u8> = RopeDefectCtx::new(vec![RopeDefectKind::Pit(1, 20)]);
    assert_eq!(d.result, vec![RopeDefectKind::Pit(1, 20)]);
    assert!(RopeDefectCtx::<u8>::default().result.is_empty());
    let b = Bond::from_slice(&[4, -2, 9]);
    assert_eq!(b, Bond { x: 4, y: -2 });
}

#[test]
fn detecting_contours_gives_a_black_and_white_frame() {
    let (width, height) = (16u32, 12u32);
    let mut pixels = Vec::new();
    for _ in 0..height {
        for x in 0..width {
            let v = if x >= 8 { 240u8 } else { 10 };
            pixels.extend_from_slice(&[v, v / 2, v, 255]);
        }
    }
    let frame = PixelImage { pixels, width, height };
    let ctx = DetectingContours::new(frame).eval(());
    assert_eq!((ctx.result.width, ctx.result.height), (width, height));
    assert_eq!(ctx.result.pixels.len(), (4 * width * height) as usize);
    for (i, v) in ctx.result.pixels.iter().enumerate() {
        if i % 4 != 3 {
            assert!(*v == 0 || *v == 255);
        }
    }
    // the filters have run: the grey levels 10 and 120 of the frame are gone
    let row = 6usize;
    let at = |x: usize| ctx.result.pixels[4 * (row * width as usize + x)];
    assert!((0..width as usize).any(|x| at(x) == 255));
}

#[test]
fn cumulative_histogram_counts_darker_pixels() {
    assert_eq!(cumulative_histogram(&[3, 0, 5, u32::MAX]), vec![3, 3, 8, 8 + u32::MAX as u64]);
    assert!(cumulative_histogram(&[]).is_empty());
}

#[test]
fn clipped_gray_range_finds_both_clip_levels() {
    let acc = [0u64, 2, 5, 9, 10, 10];
    // darkest level reaching 5 is 2; from the top, the first level below 10 is 3
    assert_eq!(clipped_gray_range(&acc, 5, 10), (2, 3));
    // nothing reaches 11: the brightest level; everything is at least 0: level 0
    assert_eq!(clipped_gray_range(&acc, 11, 0), (5, 0));
    assert_eq!(clipped_gray_range(&acc, 0, 11), (0, 5));
}

#[test]
fn detecting_contours_takes_small_frames() {
    for (width, height) in [(2u32, 2u32), (2, 9), (3, 5), (5, 3), (7, 7), (9, 2)] {
        let pixels: Vec<u8> = (0..4 * width * height).map(|i| (i * 37 % 256) as u8).collect();
        let frame = PixelImage { pixels, width, height };
        let ctx = DetectingContours::new(frame).eval(());
        assert_eq!(ctx.result.pixels.len(), (4 * width * height) as usize);
        for (i, v) in ctx.result.pixels.iter().enumerate() {
            if i % 4 != 3 {
                assert!(*v == 0 || *v == 255);
            }
        }
    }
}
