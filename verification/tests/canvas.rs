use whiteboard::canvas::{
    canvas_to_screen, find_object_at, grid_span, pan_by, screen_to_canvas, zoom_around_cursor,
    zoom_by_scroll, GRID_SPACING, ZOOM_MAX, ZOOM_MIN,
};
use whiteboard::fixed::{floor_div, integer_sqrt, saturate, COORD_MAX, UNIT};
use whiteboard::models::{DrawObject, Point};

const BLACK: [u8; 4] = [0, 0, 0, 255];

fn pt(x: i64, y: i64) -> Point {
    Point { x: x * UNIT, y: y * UNIT }
}

fn rect(id: u128, x0: i64, y0: i64, x1: i64, y1: i64) -> DrawObject {
    DrawObject::Rectangle {
        id,
        min: pt(x0, y0),
        max: pt(x1, y1),
        color: BLACK,
        width: 2 * UNIT,
        filled: false,
    }
}

#[test]
fn floor_division_rounds_toward_negative_infinity() {
    assert_eq!(floor_div(7, 2), 3);
    assert_eq!(floor_div(-7, 2), -4);
    assert_eq!(floor_div(-8, 2), -4);
    assert_eq!(floor_div(0, 5), 0);
    assert_eq!(floor_div(-1, 1_000_000), -1);
    assert_eq!(floor_div(i128::MIN, 1), i128::MIN);
    assert_eq!(floor_div(i128::MIN, 3), -56713727820156410577229101238628035243);
}

#[test]
fn integer_square_root_rounds_down() {
    assert_eq!(integer_sqrt(0), 0);
    assert_eq!(integer_sqrt(1), 1);
    assert_eq!(integer_sqrt(3), 1);
    assert_eq!(integer_sqrt(4), 2);
    assert_eq!(integer_sqrt(24), 4);
    assert_eq!(integer_sqrt(25), 5);
    assert_eq!(integer_sqrt(1_000_000_000_000), 1_000_000);
    assert_eq!(integer_sqrt(u128::MAX), u64::MAX);
}

#[test]
fn saturate_keeps_the_coordinate_range() {
    assert_eq!(saturate(5), 5);
    assert_eq!(saturate(COORD_MAX as i128), COORD_MAX);
    assert_eq!(saturate(COORD_MAX as i128 + 1), COORD_MAX);
    assert_eq!(saturate(-(COORD_MAX as i128) - 1), -COORD_MAX);
    assert_eq!(saturate(i128::MIN), -COORD_MAX);
}

#[test]
fn screen_to_canvas_subtracts_the_offset_and_divides_by_the_zoom() {
    let p = screen_to_canvas(pt(300, 200), pt(100, 50), 2 * UNIT);
    assert_eq!(p, pt(100, 75));
    let p = screen_to_canvas(pt(300, 200), pt(100, 50), UNIT / 2);
    assert_eq!(p, pt(400, 300));
    let p = screen_to_canvas(
        Point { x: 123456789, y: 123456789 },
        Point { x: -7654321, y: -7654321 },
        333333,
    );
    assert_eq!(p, Point { x: 393333723, y: 393333723 });
}

#[test]
fn screen_to_canvas_rounds_down() {
    let zero = Point { x: 0, y: 0 };
    assert_eq!(screen_to_canvas(Point { x: -5, y: 5 }, zero, 2 * UNIT), Point { x: -3, y: 2 });
    assert_eq!(screen_to_canvas(Point { x: -1, y: 0 }, zero, 3 * UNIT), Point { x: -1, y: 0 });
}

#[test]
fn screen_to_canvas_saturates() {
    let far = screen_to_canvas(
        Point { x: COORD_MAX, y: -COORD_MAX },
        Point { x: 0, y: 0 },
        ZOOM_MIN,
    );
    assert_eq!(far, Point { x: COORD_MAX, y: -COORD_MAX });
    let extreme = screen_to_canvas(
        Point { x: i64::MAX, y: i64::MIN },
        Point { x: i64::MIN, y: i64::MAX },
        1,
    );
    assert_eq!(extreme, Point { x: COORD_MAX, y: -COORD_MAX });
}

#[test]
fn canvas_to_screen_multiplies_by_the_zoom_and_adds_the_offset() {
    assert_eq!(canvas_to_screen(pt(100, 75), pt(100, 50), 2 * UNIT), pt(300, 200));
    assert_eq!(canvas_to_screen(pt(400, 300), pt(100, 50), UNIT / 2), pt(300, 200));
    assert_eq!(
        canvas_to_screen(Point { x: -3, y: 3 }, Point { x: 10, y: 10 }, UNIT / 2),
        Point { x: 8, y: 11 }
    );
    assert_eq!(
        canvas_to_screen(Point { x: i64::MAX, y: i64::MIN }, Point { x: 0, y: 0 }, i64::MAX),
        Point { x: COORD_MAX, y: -COORD_MAX }
    );
}

#[test]
fn round_trip_comes_back_within_the_slack_of_the_zoom() {
    let zooms: [i64; 7] = [ZOOM_MIN, 333_333, 999_999, UNIT, 2_500_000, 7_777_777, ZOOM_MAX];
    let offsets: [i64; 4] = [0, -7_654_321, 1, 987_654_321_012];
    let screens: [i64; 6] = [0, 1, -1, 123_456_789, -987_654_321, 5_000_000_000];
    for zoom in zooms {
        let slack = (zoom + UNIT - 1) / UNIT;
        for offset in offsets {
            for screen in screens {
                let p = Point { x: screen, y: -screen };
                let o = Point { x: offset, y: offset / 3 };
                let back = canvas_to_screen(screen_to_canvas(p, o, zoom), o, zoom);
                assert!(back.x <= p.x && p.x - back.x <= slack);
                assert!(back.y <= p.y && p.y - back.y <= slack);
            }
        }
    }
}

#[test]
fn round_trip_is_exact_where_the_division_is() {
    let p = pt(300, 200);
    let o = pt(100, 50);
    for zoom in [ZOOM_MIN, UNIT / 2, UNIT, 2 * UNIT, ZOOM_MAX] {
        assert_eq!(canvas_to_screen(screen_to_canvas(p, o, zoom), o, zoom), p);
    }
}

#[test]
fn zoom_changes_by_a_thousandth_per_pixel_of_scroll() {
    assert_eq!(zoom_by_scroll(UNIT, 50 * UNIT), 1_050_000);
    assert_eq!(zoom_by_scroll(UNIT, -50 * UNIT), 950_000);
    assert_eq!(zoom_by_scroll(1_500_000, 3 * UNIT), 1_504_500);
    assert_eq!(zoom_by_scroll(UNIT, 0), UNIT);
    assert_eq!(zoom_by_scroll(UNIT, -1), 999_999);
}

#[test]
fn zoom_stays_between_a_tenth_and_ten() {
    assert_eq!(ZOOM_MIN, UNIT / 10);
    assert_eq!(ZOOM_MAX, 10 * UNIT);
    assert_eq!(zoom_by_scroll(ZOOM_MIN, -10 * UNIT), ZOOM_MIN);
    assert_eq!(zoom_by_scroll(ZOOM_MAX, 500 * UNIT), ZOOM_MAX);
    assert_eq!(zoom_by_scroll(UNIT, i64::MIN), ZOOM_MIN);
    assert_eq!(zoom_by_scroll(UNIT, i64::MAX), ZOOM_MAX);
    assert_eq!(zoom_by_scroll(0, 0), ZOOM_MIN);
    assert_eq!(zoom_by_scroll(i64::MAX, 0), ZOOM_MAX);
}

#[test]
fn zoom_around_cursor_scales_the_offset_about_the_pointer() {
    assert_eq!(zoom_around_cursor(pt(100, 100), pt(400, 400), UNIT, 2 * UNIT), pt(-200, -200));
    assert_eq!(zoom_around_cursor(pt(-30, -30), pt(50, 50), 2 * UNIT, UNIT), pt(10, 10));
    assert_eq!(
        zoom_around_cursor(Point { x: 7, y: 13 }, Point { x: 10, y: 10 }, 3 * UNIT, UNIT),
        Point { x: 9, y: 11 }
    );
}

#[test]
fn zoom_around_cursor_keeps_the_point_under_the_pointer() {
    let offset = pt(120, -45);
    let hover = pt(640, 360);
    let old_zoom = UNIT;
    for scroll in [-300 * UNIT, -17 * UNIT, 5 * UNIT, 120 * UNIT, 900 * UNIT] {
        let new_zoom = zoom_by_scroll(old_zoom, scroll);
        let new_offset = zoom_around_cursor(offset, hover, old_zoom, new_zoom);
        let before = screen_to_canvas(hover, offset, old_zoom);
        let after = screen_to_canvas(hover, new_offset, new_zoom);
        assert!((before.x - after.x).abs() <= 11);
        assert!((before.y - after.y).abs() <= 11);
    }
}

#[test]
fn hit_test_returns_the_topmost_object() {
    let scene = vec![rect(1, 0, 0, 100, 100), rect(2, 50, 50, 150, 150), rect(3, 500, 500, 600, 600)];
    assert_eq!(find_object_at(&scene, pt(75, 75)), Some(2));
    assert_eq!(find_object_at(&scene, pt(25, 25)), Some(1));
    assert_eq!(find_object_at(&scene, pt(125, 125)), Some(2));
    assert_eq!(find_object_at(&scene, pt(550, 550)), Some(3));
}

#[test]
fn hit_test_finds_nothing_off_every_object() {
    let scene = vec![rect(1, 0, 0, 100, 100), rect(2, 50, 50, 150, 150)];
    assert_eq!(find_object_at(&scene, pt(300, 300)), None);
    assert_eq!(find_object_at(&Vec::new(), pt(0, 0)), None);
}

#[test]
fn hit_test_counts_the_stroke_width() {
    let scene = vec![rect(1, 0, 0, 100, 100)];
    assert_eq!(find_object_at(&scene, pt(-1, -1)), Some(1));
    assert_eq!(find_object_at(&scene, pt(101, 101)), Some(1));
    assert_eq!(find_object_at(&scene, Point { x: 101 * UNIT + 1, y: 0 }), None);
}

#[test]
fn canvas_round_trip_comes_back_within_the_slack_of_the_zoom() {
    let zooms: [i64; 7] = [ZOOM_MIN, 333_333, 999_999, UNIT, 2_500_000, 7_777_777, ZOOM_MAX];
    let offsets: [i64; 3] = [0, -7_654_321, 987_654_321_012];
    let points: [i64; 6] = [0, 1, -1, 123_456_789, -987_654_321, 5_000_000_000];
    for zoom in zooms {
        let slack = (UNIT + zoom - 1) / zoom;
        for offset in offsets {
            for c in points {
                let p = Point { x: c, y: -c };
                let o = Point { x: offset, y: offset / 3 };
                let back = screen_to_canvas(canvas_to_screen(p, o, zoom), o, zoom);
                assert!(back.x <= p.x && p.x - back.x <= slack);
                assert!(back.y <= p.y && p.y - back.y <= slack);
            }
        }
    }
}

#[test]
fn zoom_around_cursor_never_moves_the_point_under_the_pointer_back() {
    let offset = Point { x: 120_000_001, y: -45_000_007 };
    let hover = Point { x: 640_000_003, y: 360_000_011 };
    for old_zoom in [ZOOM_MIN, 777_777, UNIT, 3 * UNIT, ZOOM_MAX] {
        for scroll in [-300 * UNIT, -17 * UNIT, 5 * UNIT, 120 * UNIT, 900 * UNIT] {
            let new_zoom = zoom_by_scroll(old_zoom, scroll);
            let slack = (UNIT + new_zoom - 1) / new_zoom;
            let new_offset = zoom_around_cursor(offset, hover, old_zoom, new_zoom);
            let before = screen_to_canvas(hover, offset, old_zoom);
            let after = screen_to_canvas(hover, new_offset, new_zoom);
            assert!(before.x <= after.x && after.x - before.x <= slack);
            assert!(before.y <= after.y && after.y - before.y <= slack);
        }
    }
}

#[test]
fn panning_adds_the_drag_to_the_offset() {
    assert_eq!(pan_by(pt(10, -10), pt(5, 5)), pt(15, -5));
    assert_eq!(pan_by(Point { x: 1, y: 2 }, Point { x: -3, y: -4 }), Point { x: -2, y: -2 });
    assert_eq!(
        pan_by(Point { x: COORD_MAX, y: -COORD_MAX }, Point { x: 1, y: -1 }),
        Point { x: COORD_MAX, y: -COORD_MAX }
    );
    assert_eq!(
        pan_by(Point { x: i64::MAX, y: i64::MIN }, Point { x: i64::MAX, y: i64::MIN }),
        Point { x: COORD_MAX, y: -COORD_MAX }
    );
}

#[test]
fn grid_span_frames_the_view_with_grid_lines() {
    assert_eq!(GRID_SPACING, 50 * UNIT);
    assert_eq!(grid_span(10 * UNIT, 120 * UNIT), (0, 150 * UNIT));
    assert_eq!(grid_span(-10 * UNIT, -5 * UNIT), (-50 * UNIT, 0));
    assert_eq!(grid_span(50 * UNIT, 100 * UNIT), (50 * UNIT, 100 * UNIT));
    assert_eq!(grid_span(-1, 1), (-50 * UNIT, 50 * UNIT));
    assert_eq!(grid_span(0, 0), (0, 0));
    assert_eq!(grid_span(-COORD_MAX, COORD_MAX), (-COORD_MAX, COORD_MAX));
    assert_eq!(
        grid_span(-COORD_MAX + 1, COORD_MAX - 1),
        (-COORD_MAX, COORD_MAX)
    );
}
