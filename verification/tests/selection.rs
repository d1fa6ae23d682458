use whiteboard::fixed::{COORD_MAX, UNIT};
use whiteboard::models::{Bounds, DrawObject, Point, SelectionHandle, Size, StrokePoint};
use whiteboard::selection::{
    find_object, get_handle_at_pos, get_selection_bounds, scene_is_wf, select_in_marquee,
    transform_objects,
};
use whiteboard::transform::{
    transform_object, transform_point, transform_radius, Ratio, Rotation, Scale, ROT_ONE,
};

const BLACK: [u8; 4] = [0, 0, 0, 255];

fn pt(x: i64, y: i64) -> Point {
    Point { x: x * UNIT, y: y * UNIT }
}

fn zero() -> Point {
    Point { x: 0, y: 0 }
}

fn rect(id: u128, x0: i64, y0: i64, x1: i64, y1: i64) -> DrawObject {
    DrawObject::Rectangle {
        id,
        min: pt(x0, y0),
        max: pt(x1, y1),
        color: BLACK,
        width: 2 * UNIT,
        filled: false,
    }
}

fn corners(obj: &DrawObject) -> (Point, Point) {
    match obj {
        DrawObject::Rectangle { min, max, .. } => (*min, *max),
        _ => panic!("not a rectangle"),
    }
}

fn scale(xn: i64, xd: i64, yn: i64, yd: i64) -> Scale {
    Scale { x: Ratio { num: xn, den: xd }, y: Ratio { num: yn, den: yd } }
}

fn sample_scene() -> Vec<DrawObject> {
    vec![
        DrawObject::Stroke {
            id: 1,
            points: vec![
                StrokePoint { pos: pt(0, 0) },
                StrokePoint { pos: pt(10, 5) },
                StrokePoint { pos: pt(20, -5) },
            ],
            color: BLACK,
            width: 2 * UNIT,
        },
        DrawObject::Line { id: 2, start: pt(0, 0), end: pt(30, 40), color: BLACK, width: UNIT },
        DrawObject::Circle {
            id: 3,
            center: pt(50, 50),
            radius: 10 * UNIT,
            color: BLACK,
            width: 2 * UNIT,
            filled: false,
        },
        rect(4, 10, 10, 50, 30),
        DrawObject::LatexFormula {
            id: 5,
            pos: pt(100, 100),
            formula: String::from("e^{i\\pi}"),
            color: BLACK,
            cached_size: Some(Size { width: 60 * UNIT, height: 20 * UNIT }),
        },
    ]
}

fn geometry(obj: &DrawObject) -> Vec<i64> {
    match obj {
        DrawObject::Stroke { points, .. } => {
            points.iter().flat_map(|p| vec![p.pos.x, p.pos.y]).collect()
        }
        DrawObject::Line { start, end, .. } => vec![start.x, start.y, end.x, end.y],
        DrawObject::Circle { center, radius, .. } => vec![center.x, center.y, *radius],
        DrawObject::Rectangle { min, max, .. } => vec![min.x, min.y, max.x, max.y],
        DrawObject::LatexFormula { pos, .. } => vec![pos.x, pos.y],
    }
}

#[test]
fn find_object_takes_the_first_with_the_identifier() {
    let scene = vec![rect(1, 0, 0, 1, 1), rect(2, 0, 0, 1, 1), rect(1, 5, 5, 6, 6)];
    assert_eq!(find_object(&scene, 1), Some(0));
    assert_eq!(find_object(&scene, 2), Some(1));
    assert_eq!(find_object(&scene, 3), None);
    assert_eq!(find_object(&Vec::new(), 1), None);
}

#[test]
fn empty_selection_has_no_bounds() {
    let scene = sample_scene();
    assert_eq!(get_selection_bounds(&scene, &Vec::new()), None);
}

#[test]
fn selection_bounds_are_the_union_of_the_object_bounds() {
    let scene = sample_scene();
    assert_eq!(
        get_selection_bounds(&scene, &vec![4]),
        Some(Bounds { min: pt(9, 9), max: pt(51, 31) })
    );
    assert_eq!(
        get_selection_bounds(&scene, &vec![4, 3]),
        Some(Bounds { min: pt(9, 9), max: pt(61, 61) })
    );
    assert_eq!(
        get_selection_bounds(&scene, &vec![5, 1]),
        Some(Bounds { min: pt(-1, -6), max: pt(160, 120) })
    );
}

#[test]
fn selection_bounds_pass_over_identifiers_that_are_gone() {
    let scene = sample_scene();
    assert_eq!(
        get_selection_bounds(&scene, &vec![99, 4, 77]),
        Some(Bounds { min: pt(9, 9), max: pt(51, 31) })
    );
}

#[test]
fn selection_of_nothing_that_resolves_has_the_empty_box() {
    let scene = sample_scene();
    let b = get_selection_bounds(&scene, &vec![99]).unwrap();
    assert_eq!(
        b,
        Bounds {
            min: Point { x: i64::MAX, y: i64::MAX },
            max: Point { x: i64::MIN, y: i64::MIN },
        }
    );
    assert!(!b.holds(pt(0, 0)));
}

#[test]
fn selection_bounds_count_boxes_of_size_zero() {
    let scene = vec![
        DrawObject::Circle {
            id: 1,
            center: pt(-70, 90),
            radius: 0,
            color: BLACK,
            width: 0,
            filled: false,
        },
        rect(2, 0, 0, 10, 10),
    ];
    assert_eq!(
        get_selection_bounds(&scene, &vec![1]),
        Some(Bounds { min: pt(-70, 90), max: pt(-70, 90) })
    );
    assert_eq!(
        get_selection_bounds(&scene, &vec![2, 1]),
        Some(Bounds { min: pt(-70, -1), max: pt(11, 90) })
    );
}

#[test]
fn adding_to_a_selection_never_shrinks_its_bounds() {
    let scene = sample_scene();
    let mut ids: Vec<u128> = Vec::new();
    let mut last: Option<Bounds> = None;
    for id in [4u128, 99, 3, 1, 5, 2, 4] {
        ids.push(id);
        let b = get_selection_bounds(&scene, &ids).unwrap();
        if let Some(prev) = last {
            assert!(b.min.x <= prev.min.x && b.min.y <= prev.min.y);
            assert!(b.max.x >= prev.max.x && b.max.y >= prev.max.y);
        }
        last = Some(b);
    }
    assert_eq!(last, Some(Bounds { min: pt(-1, -6), max: pt(160, 120) }));
}

#[test]
fn handles_sit_on_corners_edges_and_above_the_top() {
    let b = Bounds { min: pt(0, 0), max: pt(200, 100) };
    let z = UNIT;
    assert_eq!(get_handle_at_pos(pt(0, 0), b, z), Some(SelectionHandle::TopLeft));
    assert_eq!(get_handle_at_pos(pt(200, 0), b, z), Some(SelectionHandle::TopRight));
    assert_eq!(get_handle_at_pos(pt(0, 100), b, z), Some(SelectionHandle::BottomLeft));
    assert_eq!(get_handle_at_pos(pt(200, 100), b, z), Some(SelectionHandle::BottomRight));
    assert_eq!(get_handle_at_pos(pt(100, 0), b, z), Some(SelectionHandle::Top));
    assert_eq!(get_handle_at_pos(pt(100, 100), b, z), Some(SelectionHandle::Bottom));
    assert_eq!(get_handle_at_pos(pt(0, 50), b, z), Some(SelectionHandle::Left));
    assert_eq!(get_handle_at_pos(pt(200, 50), b, z), Some(SelectionHandle::Right));
    assert_eq!(get_handle_at_pos(pt(100, -30), b, z), Some(SelectionHandle::Rotate));
    assert_eq!(get_handle_at_pos(pt(100, 50), b, z), None);
    assert_eq!(get_handle_at_pos(pt(50, 0), b, z), None);
    assert_eq!(get_handle_at_pos(pt(300, 300), b, z), None);
}

#[test]
fn handle_reach_is_ten_pixels_on_screen() {
    let b = Bounds { min: pt(0, 0), max: pt(200, 100) };
    // Strictly less than ten canvas units at zoom one.
    assert_eq!(
        get_handle_at_pos(Point { x: 10 * UNIT - 1, y: -10 * UNIT + 1 }, b, UNIT),
        Some(SelectionHandle::TopLeft)
    );
    assert_eq!(get_handle_at_pos(pt(10, 0), b, UNIT), None);
    assert_eq!(get_handle_at_pos(pt(0, -10), b, UNIT), None);
    // Five canvas units at zoom two, twenty at zoom one half.
    assert_eq!(get_handle_at_pos(pt(4, 4), b, 2 * UNIT), Some(SelectionHandle::TopLeft));
    assert_eq!(get_handle_at_pos(pt(5, 0), b, 2 * UNIT), None);
    assert_eq!(get_handle_at_pos(pt(19, 19), b, UNIT / 2), Some(SelectionHandle::TopLeft));
    assert_eq!(get_handle_at_pos(pt(20, 0), b, UNIT / 2), None);
    // A reach that is no whole number of ticks is rounded down.
    assert_eq!(
        get_handle_at_pos(Point { x: 3_333_332, y: 0 }, b, 3 * UNIT),
        Some(SelectionHandle::TopLeft)
    );
    assert_eq!(get_handle_at_pos(Point { x: 3_333_333, y: 0 }, b, 3 * UNIT), None);
}

#[test]
fn rotate_handle_floats_thirty_pixels_above_the_top_edge() {
    let b = Bounds { min: pt(0, 0), max: pt(200, 100) };
    assert_eq!(get_handle_at_pos(pt(100, -15), b, 2 * UNIT), Some(SelectionHandle::Rotate));
    assert_eq!(get_handle_at_pos(pt(100, -30), b, 2 * UNIT), None);
    assert_eq!(get_handle_at_pos(pt(100, -60), b, UNIT / 2), Some(SelectionHandle::Rotate));
    assert_eq!(get_handle_at_pos(pt(0, -30), b, UNIT), None);
}

#[test]
fn corners_win_over_edges_on_a_small_box() {
    let b = Bounds { min: pt(0, 0), max: pt(8, 8) };
    // Every handle is in reach of the center; the first in order wins.
    assert_eq!(get_handle_at_pos(pt(4, 4), b, UNIT), Some(SelectionHandle::TopLeft));
    let wide = Bounds { min: pt(0, 0), max: pt(100, 8) };
    assert_eq!(get_handle_at_pos(pt(50, 4), wide, UNIT), Some(SelectionHandle::Top));
    assert_eq!(get_handle_at_pos(pt(100, 4), wide, UNIT), Some(SelectionHandle::TopRight));
}

#[test]
fn transform_point_translates_exactly() {
    let p = transform_point(
        Point { x: 17, y: -23 },
        Scale::one(),
        Rotation::identity(),
        Point { x: 1000, y: -2000 },
        pt(123, 456),
    );
    assert_eq!(p, Point { x: 1017, y: -2023 });
}

#[test]
fn transform_point_scales_about_the_center() {
    let p = transform_point(pt(10, 10), scale(2, 1, 3, 1), Rotation::identity(), zero(), pt(30, 20));
    assert_eq!(p, pt(-10, -10));
    let p = transform_point(pt(10, 10), scale(1, 2, 1, 4), Rotation::identity(), zero(), pt(30, 20));
    assert_eq!(p, Point { x: 20 * UNIT, y: 17_500_000 });
    // Rounded down.
    let p = transform_point(
        Point { x: 1, y: -1 },
        scale(1, 3, 1, 3),
        Rotation::identity(),
        zero(),
        zero(),
    );
    assert_eq!(p, Point { x: 0, y: -1 });
}

#[test]
fn transform_point_rotates_then_scales_then_translates() {
    let quarter = Rotation { cos: 0, sin: ROT_ONE };
    let p = transform_point(pt(10, 5), Scale::one(), quarter, zero(), pt(5, 5));
    assert_eq!(p, pt(5, 10));
    let p = transform_point(pt(10, 0), scale(2, 1, 3, 1), quarter, pt(1, 1), zero());
    // (10, 0) turns to (0, 10), scales to (0, 30), moves to (1, 31).
    assert_eq!(p, pt(1, 31));
    let half = Rotation { cos: -ROT_ONE, sin: 0 };
    assert_eq!(transform_point(pt(3, 4), Scale::one(), half, zero(), pt(1, 1)), pt(-1, -2));
}

#[test]
fn transform_point_saturates() {
    let p = transform_point(
        Point { x: COORD_MAX, y: -COORD_MAX },
        scale(i64::MAX, 1, i64::MAX, 1),
        Rotation::identity(),
        Point { x: i64::MAX, y: i64::MIN },
        zero(),
    );
    assert_eq!(p, Point { x: COORD_MAX, y: -COORD_MAX });
    let p = transform_point(
        Point { x: COORD_MAX, y: 5 },
        Scale::one(),
        Rotation::identity(),
        Point { x: 1, y: 0 },
        zero(),
    );
    assert_eq!(p, Point { x: COORD_MAX, y: 5 });
}

#[test]
fn rotation_between_directions() {
    let c = zero();
    assert_eq!(Rotation::between(c, pt(1, 0), pt(0, 1)), Rotation { cos: 0, sin: ROT_ONE });
    assert_eq!(Rotation::between(c, pt(0, 1), pt(1, 0)), Rotation { cos: 0, sin: -ROT_ONE });
    assert_eq!(Rotation::between(c, pt(1, 0), pt(-1, 0)), Rotation { cos: -ROT_ONE, sin: 0 });
    assert_eq!(Rotation::between(c, pt(1, 0), pt(7, 0)), Rotation::identity());
    assert_eq!(
        Rotation::between(c, pt(1, 0), pt(1, 1)),
        Rotation { cos: 759250125, sin: 759250125 }
    );
    // About a center that is not the origin.
    assert_eq!(
        Rotation::between(pt(5, 5), pt(9, 5), pt(5, 105)),
        Rotation { cos: 0, sin: ROT_ONE }
    );
    // Back to the first direction: the identity up to one part in 2^30.
    assert_eq!(
        Rotation::between(c, pt(3, 4), pt(3, 4)),
        Rotation { cos: ROT_ONE - 1, sin: 0 }
    );
}

#[test]
fn rotation_from_the_center_counts_from_the_x_axis() {
    let c = pt(2, 2);
    assert_eq!(Rotation::between(c, c, pt(2, 7)), Rotation { cos: 0, sin: ROT_ONE });
    assert_eq!(Rotation::between(c, pt(2, 7), c), Rotation { cos: 0, sin: -ROT_ONE });
    assert_eq!(Rotation::between(c, c, c), Rotation::identity());
}

#[test]
fn rotation_by_an_eighth_turn() {
    let r = Rotation::between(zero(), pt(1, 0), pt(1, 1));
    let p = transform_point(pt(10, 0), Scale::one(), r, zero(), zero());
    assert_eq!(p, Point { x: 7071067, y: 7071067 });
}

#[test]
fn radius_scales_by_the_greater_factor() {
    assert_eq!(transform_radius(10 * UNIT, scale(2, 1, 3, 1)), 30 * UNIT);
    assert_eq!(transform_radius(10 * UNIT, scale(3, 1, 2, 1)), 30 * UNIT);
    assert_eq!(transform_radius(10 * UNIT, scale(1, 2, 1, 4)), 5 * UNIT);
    assert_eq!(transform_radius(10, scale(1, 3, 1, 4)), 3);
    assert_eq!(transform_radius(10 * UNIT, Scale::one()), 10 * UNIT);
    assert_eq!(transform_radius(10 * UNIT, scale(-1, 1, -2, 1)), 0);
    assert_eq!(transform_radius(COORD_MAX, scale(2, 1, 1, 1)), COORD_MAX);
}

#[test]
fn transform_moves_each_variant_by_its_rule() {
    let mut scene = sample_scene();
    let ids: Vec<u128> = vec![1, 2, 3, 4, 5];
    transform_objects(&mut scene, &ids, scale(2, 1, 3, 1), Rotation::identity(), pt(1, 1), zero());
    assert_eq!(geometry(&scene[0]), geometry_of(&[(1, 1), (21, 16), (41, -14)]));
    assert_eq!(geometry(&scene[1]), geometry_of(&[(1, 1), (61, 121)]));
    assert_eq!(geometry(&scene[2]), vec![101 * UNIT, 151 * UNIT, 30 * UNIT]);
    assert_eq!(geometry(&scene[3]), geometry_of(&[(21, 31), (101, 91)]));
    assert_eq!(geometry(&scene[4]), geometry_of(&[(201, 301)]));
    // Width, color, text and rendered size stay.
    match &scene[4] {
        DrawObject::LatexFormula { formula, cached_size, color, id, .. } => {
            assert_eq!(formula, "e^{i\\pi}");
            assert_eq!(*cached_size, Some(Size { width: 60 * UNIT, height: 20 * UNIT }));
            assert_eq!(*color, BLACK);
            assert_eq!(*id, 5);
        }
        _ => panic!("the formula changed its variant"),
    }
    match &scene[0] {
        DrawObject::Stroke { width, .. } => assert_eq!(*width, 2 * UNIT),
        _ => panic!("the stroke changed its variant"),
    }
    assert!(scene_is_wf(&scene));
}

fn geometry_of(points: &[(i64, i64)]) -> Vec<i64> {
    points.iter().flat_map(|p| vec![p.0 * UNIT, p.1 * UNIT]).collect()
}

#[test]
fn transform_leaves_unselected_objects_and_the_order_alone() {
    let mut scene = sample_scene();
    let before = sample_scene();
    transform_objects(
        &mut scene,
        &vec![4, 99],
        Scale::one(),
        Rotation::identity(),
        pt(5, -5),
        pt(1000, 1000),
    );
    for i in [0usize, 1, 2, 4] {
        assert_eq!(geometry(&scene[i]), geometry(&before[i]));
    }
    assert_eq!(corners(&scene[3]), (pt(15, 5), pt(55, 25)));
    let ids: Vec<u128> = scene.iter().map(|o| o.id()).collect();
    assert_eq!(ids, vec![1, 2, 3, 4, 5]);
}

#[test]
fn transform_resolves_an_identifier_to_the_first_object_that_has_it() {
    let mut scene = vec![rect(1, 0, 0, 10, 10), rect(1, 100, 100, 110, 110)];
    transform_objects(&mut scene, &vec![1], Scale::one(), Rotation::identity(), pt(1, 2), zero());
    assert_eq!(corners(&scene[0]), (pt(1, 2), pt(11, 12)));
    assert_eq!(corners(&scene[1]), (pt(100, 100), pt(110, 110)));
}

#[test]
fn rotated_rectangle_keeps_two_corners_only() {
    let mut scene = vec![rect(1, 0, 0, 40, 20)];
    transform_objects(
        &mut scene,
        &vec![1],
        Scale::one(),
        Rotation { cos: 0, sin: ROT_ONE },
        zero(),
        pt(20, 10),
    );
    // (0, 0) turns to (30, -10) and (40, 20) to (10, 30) about (20, 10).
    assert_eq!(corners(&scene[0]), (pt(30, -10), pt(10, 30)));
}

#[test]
fn move_and_move_back_restores_the_selection() {
    let mut scene = sample_scene();
    let before = sample_scene();
    let ids: Vec<u128> = vec![5, 3, 1, 2, 4];
    let delta = Point { x: 123_456_789, y: -987_654_321 };
    let back = Point { x: -delta.x, y: -delta.y };
    transform_objects(&mut scene, &ids, Scale::one(), Rotation::identity(), delta, pt(7, 7));
    assert_ne!(geometry(&scene[0]), geometry(&before[0]));
    transform_objects(&mut scene, &ids, Scale::one(), Rotation::identity(), back, pt(-400, 9));
    for i in 0..scene.len() {
        assert_eq!(geometry(&scene[i]), geometry(&before[i]));
    }
}

#[test]
fn move_at_the_edge_of_the_range_is_not_reversible() {
    let mut scene = vec![DrawObject::Line {
        id: 1,
        start: Point { x: COORD_MAX, y: 0 },
        end: zero(),
        color: BLACK,
        width: UNIT,
    }];
    let ids: Vec<u128> = vec![1];
    transform_objects(&mut scene, &ids, Scale::one(), Rotation::identity(), pt(1, 0), zero());
    transform_objects(&mut scene, &ids, Scale::one(), Rotation::identity(), pt(-1, 0), zero());
    assert_eq!(geometry(&scene[0]), vec![COORD_MAX - UNIT, 0, 0, 0]);
}

#[test]
fn transform_object_gives_a_changed_copy() {
    let scene = sample_scene();
    let moved = transform_object(&scene[2], scale(1, 2, 1, 2), Rotation::identity(), zero(), zero());
    assert_eq!(geometry(&moved), vec![25 * UNIT, 25 * UNIT, 5 * UNIT]);
    assert_eq!(geometry(&scene[2]), vec![50 * UNIT, 50 * UNIT, 10 * UNIT]);
    assert_eq!(moved.id(), 3);
}

#[test]
fn marquee_selects_what_lies_fully_inside() {
    let scene = vec![
        rect(1, 10, 10, 50, 30),
        rect(2, 60, 60, 120, 90),
        rect(3, 1, 1, 99, 99),
        rect(4, 0, 0, 100, 100),
        rect(5, 200, 200, 300, 300),
    ];
    // Fully inside: 1 and 3. Object 2 crosses the right edge, object 4
    // crosses every edge by half its stroke width, object 5 is outside.
    assert_eq!(select_in_marquee(&scene, pt(0, 0), pt(100, 100)), vec![1, 3]);
}

#[test]
fn marquee_may_be_dragged_in_any_direction() {
    let scene = vec![rect(1, 10, 10, 50, 30), rect(2, 60, 60, 120, 90)];
    assert_eq!(select_in_marquee(&scene, pt(100, 100), pt(0, 0)), vec![1]);
    assert_eq!(select_in_marquee(&scene, pt(0, 100), pt(100, 0)), vec![1]);
    assert_eq!(select_in_marquee(&scene, pt(121, 0), pt(0, 91)), vec![1, 2]);
}

#[test]
fn marquee_counts_objects_that_touch_its_edge_from_inside() {
    let scene = vec![rect(1, 1, 1, 99, 99)];
    assert_eq!(select_in_marquee(&scene, pt(0, 0), pt(100, 100)), vec![1]);
    assert_eq!(
        select_in_marquee(&scene, Point { x: 1, y: 0 }, pt(100, 100)),
        Vec::<u128>::new()
    );
}

#[test]
fn empty_marquee_selects_nothing_with_extent() {
    let scene = vec![rect(1, 10, 10, 50, 30)];
    assert_eq!(select_in_marquee(&scene, pt(20, 20), pt(20, 20)), Vec::<u128>::new());
    assert_eq!(select_in_marquee(&Vec::new(), pt(0, 0), pt(100, 100)), Vec::<u128>::new());
}

#[test]
fn marquee_names_no_identifier_twice() {
    let scene = vec![
        rect(1, 10, 10, 20, 20),
        rect(2, 30, 30, 40, 40),
        rect(3, 50, 50, 60, 60),
        rect(4, 70, 70, 80, 80),
    ];
    let ids = select_in_marquee(&scene, pt(0, 0), pt(100, 100));
    assert_eq!(ids, vec![1, 2, 3, 4]);
    let mut sorted = ids.clone();
    sorted.sort();
    sorted.dedup();
    assert_eq!(sorted.len(), ids.len());
}

#[test]
fn scene_well_formedness_is_tested_object_by_object() {
    assert!(scene_is_wf(&sample_scene()));
    assert!(scene_is_wf(&Vec::new()));
    let mut scene = sample_scene();
    scene.push(DrawObject::Line {
        id: 9,
        start: Point { x: COORD_MAX + 1, y: 0 },
        end: zero(),
        color: BLACK,
        width: UNIT,
    });
    assert!(!scene_is_wf(&scene));
}
