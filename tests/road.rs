use joyride_road::depth::{build_road_static, RoadStatic, CAMERA_HEIGHT, CONVERGE_DISTANCE, FIELD_HEIGHT, ROAD_DISTANCE};
use joyride_road::fixed::{div_toward_zero, fixed_mul, ONE};
use joyride_road::project::{
    build_road_dynamic, converge_x, project_road, HillScratchPad, ADVANCE_FLOOR, ROAD_CENTER_X,
};
use joyride_road::query::{get_draw_params_on_road, is_offroad};
use joyride_road::render::{default_colors, render_road, RoadDrawing, NUM_ROAD_PIXELS};
use joyride_road::track::{RoadDynamic, RoadSegment, MAX_ROAD_DRAW_HEIGHT, SEGMENT_LENGTH};

fn fx(v: f64) -> i64 {
    (v * 65536.0).round() as i64
}

fn to_f(v: i128) -> f64 {
    v as f64 / 65536.0
}

fn standard_static() -> RoadStatic {
    build_road_static(FIELD_HEIGHT, CAMERA_HEIGHT, CONVERGE_DISTANCE, ROAD_DISTANCE, default_colors())
        .expect("the standard camera gives a valid table")
}

fn flat_segments(n: usize) -> Vec<RoadSegment> {
    vec![RoadSegment { curve: 0, hill: 0 }; n]
}

fn reproject(st: &RoadStatic, dy: &mut RoadDynamic) {
    let mut pad = HillScratchPad::new(st.z_map.len());
    project_road(st, dy, &mut pad);
}

#[test]
fn depth_table_matches_reverse_projection() {
    let st = standard_static();
    assert_eq!(st.z_map.len(), 110);
    let expected_depth = 75.0 / (240.0 - (240.0 - 113.4));
    assert!((to_f(st.z_map[0] as i128) - expected_depth).abs() < 1e-4);
    assert!((to_f(st.scale_map[0] as i128) - 1.0 / expected_depth).abs() < 1e-4);
    let depth_50 = 75.0 / (113.4 - 50.0);
    assert!((to_f(st.z_map[50] as i128) - depth_50).abs() < 1e-4);
}

#[test]
fn depth_table_is_monotonic() {
    let st = standard_static();
    for i in 0..st.z_map.len() - 1 {
        assert!(st.z_map[i] < st.z_map[i + 1]);
        assert!(st.scale_map[i] > st.scale_map[i + 1]);
    }
}

#[test]
fn query_at_row_fifty_has_its_scale() {
    let st = standard_static();
    let dy = build_road_dynamic(&st, flat_segments(2));
    let p = get_draw_params_on_road(&st, &dy, 0, st.z_map[50]).expect("row 50 is visible");
    assert_eq!(p.scale, st.scale_map[50]);
    assert!((to_f(p.scale as i128) - (113.4 - 50.0) / 75.0).abs() < 1e-3);
}

#[test]
fn bad_configurations_are_refused() {
    let c = default_colors();
    assert!(build_road_static(240, CAMERA_HEIGHT, CONVERGE_DISTANCE, 0, c).is_none());
    assert!(build_road_static(240, 0, CONVERGE_DISTANCE, 110, c).is_none());
    assert!(build_road_static(240, -CAMERA_HEIGHT, CONVERGE_DISTANCE, 110, c).is_none());
    // the convergence line is reached within the rows
    assert!(build_road_static(240, CAMERA_HEIGHT, 100 * 65536, 110, c).is_none());
    assert!(build_road_static(240, CAMERA_HEIGHT, 109 * 65536, 110, c).is_none());
    // depths too fine to tell apart
    assert!(build_road_static(240, 1, CONVERGE_DISTANCE, 110, c).is_none());
    assert!(build_road_static(240, CAMERA_HEIGHT, 110 * 65536, 110, c).is_some());
}

#[test]
fn advance_within_a_segment() {
    let st = standard_static();
    let mut dy = build_road_dynamic(&st, flat_segments(2));
    dy.advance_z(fx(2.5));
    assert_eq!(dy.current_segment_and_offset(), (0, fx(2.5)));
    assert_eq!(dy.z_offset, fx(0.5));
}

#[test]
fn advance_rolls_over_several_segments() {
    let st = standard_static();
    let mut dy = build_road_dynamic(&st, flat_segments(2));
    dy.advance_z(fx(50.0));
    assert_eq!(dy.seg_idx, 3);
    assert_eq!(dy.seg_pos, fx(5.0));
    dy.advance_z(fx(10.25));
    assert_eq!(dy.seg_idx, 4);
    assert_eq!(dy.seg_pos, fx(0.25));
    assert_eq!(dy.z_offset, fx(0.25));
}

#[test]
fn advance_to_exact_boundary() {
    let st = standard_static();
    let mut dy = build_road_dynamic(&st, flat_segments(2));
    dy.advance_z(SEGMENT_LENGTH);
    assert_eq!(dy.current_segment_and_offset(), (1, 0));
    dy.advance_z(0);
    assert_eq!(dy.current_segment_and_offset(), (1, 0));
}

#[test]
fn advance_keeps_total_distance() {
    let st = standard_static();
    let mut dy = build_road_dynamic(&st, flat_segments(2));
    let mut total: i64 = 0;
    for step in [fx(0.3), fx(14.9), fx(15.0), fx(31.7), 1, 0, fx(99.99)] {
        dy.advance_z(step);
        total += step;
        assert_eq!(dy.seg_idx as i64 * SEGMENT_LENGTH + dy.seg_pos, total);
        assert!(dy.seg_pos >= 0 && dy.seg_pos < SEGMENT_LENGTH);
        assert_eq!(dy.z_offset, total % fx(1.0));
    }
}

#[test]
fn curvature_lookup_clamps_to_last_segment() {
    let st = standard_static();
    let segs = vec![
        RoadSegment { curve: 100, hill: 0 },
        RoadSegment { curve: 200, hill: 0 },
        RoadSegment { curve: 300, hill: 0 },
    ];
    let mut dy = build_road_dynamic(&st, segs);
    assert_eq!(dy.get_seg_curvature(0), 100);
    assert_eq!(dy.get_seg_curvature(fx(16.0)), 200);
    assert_eq!(dy.get_seg_curvature(fx(1000.0)), 300);
    dy.advance_z(fx(500.0));
    assert_eq!(dy.get_seg_curvature(0), 300);
    assert_eq!(dy.query_segment_at(0), RoadSegment { curve: 300, hill: 0 });
}

#[test]
fn straight_road_is_centered() {
    let st = standard_static();
    let dy = build_road_dynamic(&st, flat_segments(3));
    for &x in dy.x_map.iter() {
        assert_eq!(x, ROAD_CENTER_X);
    }
    assert_eq!(ROAD_CENTER_X, 160 * 65536);
}

#[test]
fn straight_road_with_offset_converges() {
    let st = standard_static();
    let mut dy = build_road_dynamic(&st, flat_segments(3));
    let l = fx(10.0) as i32;
    dy.x_offset = l;
    reproject(&st, &mut dy);
    let n = dy.x_map.len() as i128;
    for (i, &x) in dy.x_map.iter().enumerate() {
        assert_eq!(x, ROAD_CENTER_X + (l as i128) * (n - i as i128) / n);
    }
    assert_eq!(dy.x_map[0], ROAD_CENTER_X + l as i128);
    assert_eq!(dy.x_map[109], ROAD_CENTER_X + (l as i128) / 110);
    assert!((to_f(dy.x_map[109]) - 160.0).abs() < 0.1);
}

#[test]
fn convergence_on_a_curve() {
    let st = standard_static();
    let segs = vec![RoadSegment { curve: fx(0.1) as i32, hill: 0 }; 3];
    let mut dy = build_road_dynamic(&st, segs);
    let curved: Vec<i128> = dy.x_map.clone();
    dy.x_offset = -(fx(40.0) as i32);
    reproject(&st, &mut dy);
    assert_eq!(dy.x_map[0], ROAD_CENTER_X - fx(40.0) as i128);
    for i in 0..110 {
        assert_eq!(dy.x_map[i] - curved[i], converge_x(-(fx(40.0) as i128), i, 110));
    }
    assert!(curved[109] > curved[0]);
}

#[test]
fn converge_x_values() {
    assert_eq!(converge_x(1100, 0, 110), 1100);
    assert_eq!(converge_x(1100, 55, 110), 550);
    assert_eq!(converge_x(1100, 109, 110), 10);
    assert_eq!(converge_x(-1100, 109, 110), -10);
    assert_eq!(converge_x(-7, 1, 2), -3);
    assert_eq!(converge_x(7, 110, 110), 0);
}

#[test]
fn fixed_point_arithmetic() {
    assert_eq!(fixed_mul(fx(1.5) as i128, fx(2.0) as i128), fx(3.0) as i128);
    assert_eq!(fixed_mul(-(fx(1.5) as i128), fx(0.5) as i128), -(fx(0.75) as i128));
    assert_eq!(fixed_mul(3, 3), 0);
    assert_eq!(fixed_mul(-3, 65535), -2);
    assert_eq!(div_toward_zero(-7, 2), -3);
    assert_eq!(div_toward_zero(7, 2), 3);
    assert_eq!(ONE, 65536);
}

#[test]
fn visibility_boundaries() {
    let st = standard_static();
    let dy = build_road_dynamic(&st, flat_segments(2));
    assert!(get_draw_params_on_road(&st, &dy, 0, 0).is_none());
    assert!(get_draw_params_on_road(&st, &dy, 0, -fx(3.0)).is_none());
    assert!(get_draw_params_on_road(&st, &dy, 0, st.z_map[0] - 1).is_none());
    assert!(get_draw_params_on_road(&st, &dy, 0, st.z_map[109]).is_none());
    assert!(get_draw_params_on_road(&st, &dy, 0, fx(1000.0)).is_none());
    for row in 0..109 {
        let p = get_draw_params_on_road(&st, &dy, 0, st.z_map[row]).expect("in range");
        assert_eq!(p.scale, st.scale_map[row]);
        let mid = get_draw_params_on_road(&st, &dy, 0, st.z_map[row] + 1).expect("in range");
        assert_eq!(mid.scale, st.scale_map[row]);
    }
}

#[test]
fn flat_round_trip() {
    let st = standard_static();
    let dy = build_road_dynamic(&st, flat_segments(2));
    assert_eq!(dy.get_draw_height_pixels(), 110);
    for row in 0..109 {
        let p = get_draw_params_on_road(&st, &dy, 0, st.z_map[row]).expect("visible");
        assert_eq!(p.draw_pos.1, row);
        assert_eq!(dy.y_map[p.draw_pos.1], row);
        assert_eq!(p.draw_pos.0, ROAD_CENTER_X);
    }
    for line in 110..MAX_ROAD_DRAW_HEIGHT {
        assert_eq!(dy.y_map[line], 110);
    }
}

#[test]
fn object_x_converges() {
    let st = standard_static();
    let dy = build_road_dynamic(&st, flat_segments(2));
    let p = get_draw_params_on_road(&st, &dy, fx(-50.0), st.z_map[55]).expect("visible");
    assert_eq!(p.draw_pos.0, ROAD_CENTER_X - (fx(50.0) as i128) * 55 / 110);
    let near = get_draw_params_on_road(&st, &dy, fx(-50.0), st.z_map[0]).expect("visible");
    assert_eq!(near.draw_pos.0, ROAD_CENTER_X - fx(50.0) as i128);
}

#[test]
fn steep_hills_keep_advancing() {
    let st = standard_static();
    for hill in [i32::MIN, -fx(5.0) as i32, -fx(0.5) as i32, fx(0.5) as i32, i32::MAX] {
        let segs = vec![RoadSegment { curve: 0, hill }; 2];
        let mut dy = build_road_dynamic(&st, segs);
        let mut pad = HillScratchPad::new(110);
        project_road(&st, &mut dy, &mut pad);
        for &a in pad.y_advancement_map.iter() {
            assert!(a >= ADVANCE_FLOOR);
            assert!(a > 0);
        }
        let dh = dy.get_draw_height_pixels();
        assert!(dh <= MAX_ROAD_DRAW_HEIGHT);
        for line in 0..MAX_ROAD_DRAW_HEIGHT {
            if line < dh {
                assert!(dy.y_map[line] < 110);
            } else {
                assert_eq!(dy.y_map[line], 110);
            }
        }
    }
}

#[test]
fn downhill_floor_stretches_to_screen_limit() {
    let st = standard_static();
    let segs = vec![RoadSegment { curve: 0, hill: i32::MIN }; 2];
    let dy = build_road_dynamic(&st, segs);
    assert_eq!(dy.get_draw_height_pixels(), MAX_ROAD_DRAW_HEIGHT);
}

#[test]
fn hill_changes_draw_height() {
    let st = standard_static();
    let flat = build_road_dynamic(&st, flat_segments(2));
    let segs = vec![RoadSegment { curve: 0, hill: fx(0.02) as i32 }, RoadSegment { curve: 0, hill: 0 }];
    let hilly = build_road_dynamic(&st, segs);
    assert_eq!(flat.get_draw_height_pixels(), 110);
    assert_ne!(hilly.get_draw_height_pixels(), flat.get_draw_height_pixels());
}

#[test]
fn curve_continues_smoothly_over_boundary() {
    let st = standard_static();
    let segs = vec![RoadSegment { curve: fx(0.1) as i32, hill: 0 }, RoadSegment { curve: 0, hill: 0 }];
    let mut dy = build_road_dynamic(&st, segs);
    let before: Vec<i128> = dy.x_map.clone();
    let max_step = (1..110).map(|i| (before[i] - before[i - 1]).abs()).max().unwrap();
    dy.advance_z(SEGMENT_LENGTH - fx(2.0));
    reproject(&st, &mut dy);
    let b = (1..110)
        .find(|&i| (st.z_map[i] + dy.seg_pos - st.z_map[0]) > SEGMENT_LENGTH)
        .expect("the boundary is within the table");
    let jump = (dy.x_map[b] - dy.x_map[b - 1]).abs();
    let prev = (dy.x_map[b - 1] - dy.x_map[b - 2]).abs();
    assert!(jump <= prev + fx(0.01) as i128);
    assert!(jump <= max_step);
    for i in b + 1..110 {
        let d1 = dy.x_map[i] - dy.x_map[i - 1];
        let d0 = dy.x_map[i - 1] - dy.x_map[i - 2];
        assert_eq!(d1, d0);
    }
    dy.advance_z(fx(2.0));
    assert_eq!(dy.current_segment_and_offset(), (1, 0));
    reproject(&st, &mut dy);
    for i in 1..110 {
        assert_eq!(dy.x_map[i], dy.x_map[i - 1]);
    }
}

#[test]
fn offroad_detection() {
    let st = standard_static();
    let mut dy = build_road_dynamic(&st, flat_segments(2));
    assert!(!is_offroad(&st, &dy));
    dy.x_offset = fx(200.0) as i32;
    assert!(!is_offroad(&st, &dy));
    dy.x_offset = -(fx(230.0) as i32);
    assert!(is_offroad(&st, &dy));
}

#[test]
fn render_writes_every_pixel() {
    let st = standard_static();
    let dy = build_road_dynamic(&st, flat_segments(2));
    let mut draw = RoadDrawing::new();
    for px in draw.draw_buffer.iter_mut() {
        *px = 0x12345678;
    }
    render_road(&st, &dy, &mut draw);
    assert_eq!(draw.draw_buffer.len(), NUM_ROAD_PIXELS);
    // lines above the road are transparent
    for line in 0..(MAX_ROAD_DRAW_HEIGHT - 110) {
        for x in 0..320 {
            assert_eq!(draw.draw_buffer[line * 320 + x], 0);
        }
    }
    for line in (MAX_ROAD_DRAW_HEIGHT - 110)..MAX_ROAD_DRAW_HEIGHT {
        assert_ne!(draw.draw_buffer[line * 320], 0x12345678);
    }
}

#[test]
fn render_bands_and_byte_order() {
    let st = standard_static();
    let dy = build_road_dynamic(&st, flat_segments(2));
    let mut draw = RoadDrawing::new();
    render_road(&st, &dy, &mut draw);
    let colors = default_colors();
    // the bottom line draws row 0
    let bottom = (MAX_ROAD_DRAW_HEIGHT - 1) * 320;
    let phase0 = ((st.z_map[0] + dy.z_offset) / 32768) % 2 != 0;
    let center = if phase0 { colors.pavement.1 } else { colors.center_line };
    assert_eq!(draw.draw_buffer[bottom + 160], center.to_be());
    let pave = if phase0 { colors.pavement.1 } else { colors.pavement.0 };
    assert_eq!(draw.draw_buffer[bottom + 100], pave.to_be());
    // row 100 is narrow: the left edge is off the road
    let line = MAX_ROAD_DRAW_HEIGHT - 1 - 100;
    let phase = ((st.z_map[100] + dy.z_offset) / 32768) % 2 != 0;
    let off = if phase { colors.offroad.1 } else { colors.offroad.0 };
    assert_eq!(draw.draw_buffer[line * 320], off.to_be());
    let rumble = if phase { colors.rumble_strip.1 } else { colors.rumble_strip.0 };
    let half = to_f(fixed_mul(125 * 65536, st.scale_map[100] as i128));
    let x = (160.0 + half + 1.0) as usize;
    assert_eq!(draw.draw_buffer[line * 320 + x], rumble.to_be());
}

#[test]
fn color_phase_follows_travel() {
    let st = standard_static();
    let mut dy = build_road_dynamic(&st, flat_segments(2));
    let mut draw = RoadDrawing::new();
    render_road(&st, &dy, &mut draw);
    let bottom = (MAX_ROAD_DRAW_HEIGHT - 1) * 320;
    let first = draw.draw_buffer[bottom + 100];
    dy.advance_z(fx(0.5));
    reproject(&st, &mut dy);
    render_road(&st, &dy, &mut draw);
    let second = draw.draw_buffer[bottom + 100];
    assert_ne!(first, second);
    dy.advance_z(fx(0.5));
    reproject(&st, &mut dy);
    render_road(&st, &dy, &mut draw);
    assert_eq!(draw.draw_buffer[bottom + 100], first);
}
