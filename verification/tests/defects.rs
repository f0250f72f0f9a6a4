use frdm_server::algorithm::defects::Defects;
use frdm_server::algorithm::mad::{Bend, Mad, MadCtx, MadError};
use frdm_server::algorithm::rope_defect::{classify, rope_defects, rope_defects_checked, EdgeStats, ScaledThreshold};
use frdm_server::algorithm::rope_distortions::RopeDistortions;
use frdm_server::algorithm::RopeDefectKind;
use frdm_server::domain::Dot;

fn stats(median: usize, floor: i64, ceil: i64) -> EdgeStats {
    EdgeStats { median, bound: ScaledThreshold { floor, ceil } }
}

#[test]
fn defect_kind_accessors() {
    let d = RopeDefectKind::Hill(3, 9);
    assert_eq!(d.start(), 3);
    assert_eq!(d.end(), 9);
    assert_eq!(d.start_with(1), RopeDefectKind::Hill(1, 9));
    assert_eq!(d.end_with(20), RopeDefectKind::Hill(3, 20));
    assert!(d.is_same(&RopeDefectKind::Hill(0, 0)));
    assert!(!d.is_same(&RopeDefectKind::Pit(3, 9)));
}

#[test]
fn defects_report_only_long_runs() {
    let mut defects = Defects::new();
    defects.push(RopeDefectKind::Expansion(10, 10));
    defects.push(RopeDefectKind::Expansion(11, 11));
    defects.no_defect(27);
    defects.push(RopeDefectKind::Pit(40, 40));
    defects.no_defect(56);
    assert_eq!(defects.all(), vec![RopeDefectKind::Expansion(10, 27)]);
}

#[test]
fn defects_absorb_and_grow() {
    let mut defects = Defects::new();
    defects.push(RopeDefectKind::Hill(0, 0));
    // a hill that grows into an expansion becomes that expansion
    defects.push(RopeDefectKind::Expansion(5, 5));
    // a pit inside an expansion is absorbed
    defects.push(RopeDefectKind::Pit(6, 6));
    // a compressing ends the expansion at its start
    defects.push(RopeDefectKind::Compressing(30, 30));
    defects.no_defect(31);
    assert_eq!(defects.all(), vec![RopeDefectKind::Expansion(0, 30)]);
}

#[test]
fn mad_median_of_sorted_samples() {
    assert_eq!(Mad::median(&[]), Err(MadError::EmptySample));
    assert_eq!(Mad::median(&[5]), Ok(5));
    assert_eq!(Mad::median(&[1, 2, 7]), Ok(2));
    // the mean of the two middle values, halves rounded up
    assert_eq!(Mad::median(&[1, 2]), Ok(2));
    assert_eq!(Mad::median(&[1, 3, 8, 9]), Ok(6));
}

#[test]
fn mad_eval_sorts_first() {
    let mad = Mad::new();
    assert_eq!(mad.eval(vec![3, 1, 2]), Ok(MadCtx { median: 2, mad: 1 }));
    assert_eq!(mad.eval(vec![10, 1, 1, 1, 4]), Ok(MadCtx { median: 1, mad: 0 }));
    assert_eq!(mad.eval(vec![]), Err(MadError::EmptySample));
}

#[test]
fn points_width_is_row_distance() {
    let upper = [Dot { x: 0, y: 10 }, Dot { x: 1, y: 30 }];
    let lower = [Dot { x: 0, y: 25 }, Dot { x: 1, y: 20 }, Dot { x: 2, y: 0 }];
    assert_eq!(RopeDistortions::points_width(&upper, &lower), vec![15, 10]);
}

#[test]
fn distortion_groups_straying_columns_and_drops_the_open_one() {
    let upper: Vec<Dot<usize>> = (0..8).map(|x| Dot { x, y: 100 }).collect();
    let widths = [50usize, 60, 61, 50, 50, 70, 70, 70];
    let lower: Vec<Dot<usize>> = widths.iter().enumerate().map(|(x, w)| Dot { x, y: 100 + w }).collect();
    // median width 50, threshold 5.5: columns 1 and 2 stray, then 5..8 stray to the end
    let bends = RopeDistortions::distortion(upper, lower, 50, ScaledThreshold { floor: 5, ceil: 6 });
    assert_eq!(bends.len(), 1);
    assert_eq!(bends[0].upper, vec![Dot { x: 1, y: 100 }, Dot { x: 2, y: 100 }]);
    assert_eq!(bends[0].lower, vec![Dot { x: 1, y: 160 }, Dot { x: 2, y: 161 }]);
}

#[test]
fn classify_tries_expansion_compressing_hill_pit() {
    let us = stats(100, 5, 6);
    let ls = stats(200, 5, 6);
    let u = |x: usize, y: usize| Dot { x, y };
    assert_eq!(classify(&u(1, 100), &u(1, 210), &us, &ls), Some(RopeDefectKind::Expansion(1, 1)));
    assert_eq!(classify(&u(2, 110), &u(2, 200), &us, &ls), Some(RopeDefectKind::Compressing(2, 2)));
    assert_eq!(classify(&u(3, 100), &u(3, 190), &us, &ls), Some(RopeDefectKind::Hill(3, 3)));
    assert_eq!(classify(&u(4, 100), &u(4, 200), &us, &ls), None);
}

#[test]
fn rope_defects_reports_long_runs_of_each_bend() {
    let us = stats(100, 5, 6);
    let ls = stats(200, 5, 6);
    let mut long = Bend::new();
    for x in 10..30 {
        long.push(Dot { x, y: 100 }, Dot { x, y: 210 });
    }
    let mut short = Bend::new();
    for x in 40..45 {
        short.push(Dot { x, y: 110 }, Dot { x, y: 200 });
    }
    let found = rope_defects(&vec![long, short], &us, &ls);
    assert_eq!(found, vec![RopeDefectKind::Expansion(10, 29)]);
}

#[test]
fn bend_from_array_and_push() {
    let mut bend = Bend::from_array([1, 2, 3, 4]);
    bend.push(Dot { x: 5, y: 6 }, Dot { x: 7, y: 8 });
    assert_eq!(bend.upper, vec![Dot { x: 1, y: 2 }, Dot { x: 5, y: 6 }]);
    assert_eq!(bend.lower, vec![Dot { x: 3, y: 4 }, Dot { x: 7, y: 8 }]);
}

#[test]
fn a_pit_column_is_taken_for_an_expansion() {
    let us = stats(100, 5, 6);
    let ls = stats(200, 5, 6);
    // the upper edge keeps near its median, the lower one goes above its threshold
    let found = classify(&Dot { x: 7, y: 98 }, &Dot { x: 7, y: 230 }, &us, &ls);
    assert_eq!(found, Some(RopeDefectKind::Expansion(7, 7)));
}

#[test]
fn defects_of_ordered_bends_do_not_overlap() {
    let us = stats(100, 5, 6);
    let ls = stats(200, 5, 6);
    let mut first = Bend::new();
    for x in 0..20 {
        first.push(Dot { x, y: 100 }, Dot { x, y: 210 });
    }
    for x in 20..40 {
        first.push(Dot { x, y: 110 }, Dot { x, y: 200 });
    }
    let mut second = Bend::new();
    for x in 50..70 {
        second.push(Dot { x, y: 100 }, Dot { x, y: 190 });
    }
    let bends = vec![first, second];
    assert!(frdm_server::algorithm::rope_defect::columns_in_order(&bends));
    let found = rope_defects(&bends, &us, &ls);
    assert_eq!(
        found,
        vec![
            RopeDefectKind::Expansion(0, 20),
            RopeDefectKind::Compressing(20, 39),
            RopeDefectKind::Hill(50, 69),
        ]
    );
    for pair in found.windows(2) {
        assert!(pair[0].end() <= pair[1].start());
    }
}

#[test]
fn rope_defects_checked_refuses_a_defect_ending_before_its_start() {
    let us = stats(100, 5, 6);
    let ls = stats(200, 5, 6);
    let mut back = Bend::new();
    back.push(Dot { x: 50, y: 100 }, Dot { x: 50, y: 210 });
    back.push(Dot { x: 10, y: 100 }, Dot { x: 10, y: 200 });
    assert_eq!(rope_defects_checked(&vec![back], &us, &ls), None);
    let mut long = Bend::new();
    for x in 10..30 {
        long.push(Dot { x, y: 100 }, Dot { x, y: 210 });
    }
    assert_eq!(rope_defects_checked(&vec![long], &us, &ls), Some(vec![RopeDefectKind::Expansion(10, 29)]));
}

#[test]
fn mad_eval_ignores_the_order_of_the_sample() {
    let mad = Mad::new();
    let a = mad.eval(vec![7, 1, 4, 10, 2]);
    let b = mad.eval(vec![10, 2, 7, 4, 1]);
    assert_eq!(a, b);
    assert_eq!(a, Ok(MadCtx { median: 4, mad: 3 }));
}
