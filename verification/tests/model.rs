use whiteboard::fixed::{COORD_MAX, UNIT};
use whiteboard::models::{
    clone_scene, length_is_valid, point_in_canvas, Bounds, DrawObject, Point, SelectionHandle,
    SelectionMode, Size, StrokePoint, Tool, PLACEHOLDER_HEIGHT, PLACEHOLDER_WIDTH,
};

const BLACK: [u8; 4] = [0, 0, 0, 255];

fn pt(x: i64, y: i64) -> Point {
    Point { x: x * UNIT, y: y * UNIT }
}

fn stroke(id: u128, points: &[(i64, i64)], width: i64) -> DrawObject {
    DrawObject::Stroke {
        id,
        points: points.iter().map(|p| StrokePoint { pos: pt(p.0, p.1) }).collect(),
        color: BLACK,
        width,
    }
}

#[test]
fn rectangle_bounds_extend_by_half_the_width() {
    let rect = DrawObject::Rectangle {
        id: 1,
        min: pt(10, 10),
        max: pt(50, 30),
        color: BLACK,
        width: 2 * UNIT,
        filled: false,
    };
    assert!(rect.is_wf());
    assert_eq!(rect.bounds(), Bounds { min: pt(9, 9), max: pt(51, 31) });
}

#[test]
fn rectangle_corners_are_not_put_in_order() {
    let rect = DrawObject::Rectangle {
        id: 1,
        min: pt(50, 30),
        max: pt(10, 10),
        color: BLACK,
        width: 0,
        filled: true,
    };
    let b = rect.bounds();
    assert_eq!(b, Bounds { min: pt(50, 30), max: pt(10, 10) });
    assert!(!rect.contains_point(pt(20, 20)));
    assert!(!rect.contains_point(pt(50, 30)));
}

#[test]
fn empty_stroke_has_the_empty_box_at_the_origin() {
    let s = stroke(7, &[], 8 * UNIT);
    assert_eq!(s.bounds(), Bounds { min: pt(0, 0), max: pt(0, 0) });
    assert!(s.contains_point(pt(0, 0)));
    assert!(!s.contains_point(Point { x: 1, y: 0 }));
}

#[test]
fn stroke_bounds_cover_every_point() {
    let s = stroke(7, &[(5, 5), (-3, 8), (10, -2), (4, 4)], 4 * UNIT);
    assert_eq!(s.bounds(), Bounds { min: pt(-5, -4), max: pt(12, 10) });
}

#[test]
fn single_point_stroke_is_pickable_through_its_width() {
    let s = stroke(7, &[(5, 5)], 2 * UNIT);
    assert_eq!(s.bounds(), Bounds { min: pt(4, 4), max: pt(6, 6) });
    assert!(s.contains_point(pt(6, 4)));
    assert!(!s.contains_point(pt(7, 5)));
}

#[test]
fn zero_width_point_has_a_box_of_size_zero() {
    let s = stroke(7, &[(5, 5)], 0);
    assert_eq!(s.bounds(), Bounds { min: pt(5, 5), max: pt(5, 5) });
    assert!(s.contains_point(pt(5, 5)));
    assert!(!s.contains_point(Point { x: 5 * UNIT + 1, y: 5 * UNIT }));
}

#[test]
fn odd_width_rounds_its_half_down() {
    let line = DrawObject::Line {
        id: 2,
        start: Point { x: 10, y: 40 },
        end: Point { x: 30, y: 20 },
        color: BLACK,
        width: 5,
    };
    assert_eq!(
        line.bounds(),
        Bounds { min: Point { x: 8, y: 18 }, max: Point { x: 32, y: 42 } }
    );
}

#[test]
fn line_bounds_order_the_ends() {
    let line = DrawObject::Line {
        id: 2,
        start: pt(10, 40),
        end: pt(30, 20),
        color: BLACK,
        width: 2 * UNIT,
    };
    assert_eq!(line.bounds(), Bounds { min: pt(9, 19), max: pt(31, 41) });
}

#[test]
fn circle_bounds_add_radius_and_half_width() {
    let circle = DrawObject::Circle {
        id: 3,
        center: pt(100, 100),
        radius: 20 * UNIT,
        color: BLACK,
        width: 4 * UNIT,
        filled: false,
    };
    assert_eq!(circle.bounds(), Bounds { min: pt(78, 78), max: pt(122, 122) });
    // Hit-testing goes by the box, not by the exact shape.
    assert!(circle.contains_point(pt(78, 78)));
}

#[test]
fn circle_of_radius_zero_is_a_point() {
    let circle = DrawObject::Circle {
        id: 3,
        center: pt(1, 2),
        radius: 0,
        color: BLACK,
        width: 0,
        filled: false,
    };
    assert_eq!(circle.bounds(), Bounds { min: pt(1, 2), max: pt(1, 2) });
}

#[test]
fn formula_without_rendered_size_has_the_placeholder_box() {
    let f = DrawObject::LatexFormula {
        id: 4,
        pos: pt(10, 20),
        formula: String::from("x^2"),
        color: BLACK,
        cached_size: None,
    };
    assert_eq!(PLACEHOLDER_WIDTH, 100 * UNIT);
    assert_eq!(PLACEHOLDER_HEIGHT, 40 * UNIT);
    assert_eq!(f.bounds(), Bounds { min: pt(10, 20), max: pt(110, 60) });
}

#[test]
fn formula_with_rendered_size_spans_it() {
    let f = DrawObject::LatexFormula {
        id: 4,
        pos: pt(10, 20),
        formula: String::from("x^2"),
        color: BLACK,
        cached_size: Some(Size { width: 30 * UNIT, height: 12 * UNIT }),
    };
    assert_eq!(f.bounds(), Bounds { min: pt(10, 20), max: pt(40, 32) });
}

#[test]
fn contains_point_includes_the_edges() {
    let rect = DrawObject::Rectangle {
        id: 1,
        min: pt(10, 10),
        max: pt(50, 30),
        color: BLACK,
        width: 2 * UNIT,
        filled: false,
    };
    assert!(rect.contains_point(pt(9, 9)));
    assert!(rect.contains_point(pt(51, 31)));
    assert!(rect.contains_point(pt(30, 20)));
    assert!(!rect.contains_point(Point { x: 9 * UNIT - 1, y: 9 * UNIT }));
    assert!(!rect.contains_point(Point { x: 51 * UNIT, y: 31 * UNIT + 1 }));
}

#[test]
fn id_is_the_one_given_at_creation() {
    assert_eq!(stroke(11, &[], UNIT).id(), 11);
    let f = DrawObject::LatexFormula {
        id: u128::MAX,
        pos: pt(0, 0),
        formula: String::new(),
        color: BLACK,
        cached_size: None,
    };
    assert_eq!(f.id(), u128::MAX);
}

#[test]
fn well_formedness_is_tested_field_by_field() {
    assert!(stroke(1, &[(1, 2), (3, 4)], UNIT).is_wf());
    assert!(!stroke(1, &[(1, 2)], -1).is_wf());
    assert!(!stroke(1, &[(1, 2)], COORD_MAX + 1).is_wf());
    let far = DrawObject::Stroke {
        id: 1,
        points: vec![
            StrokePoint { pos: pt(0, 0) },
            StrokePoint { pos: Point { x: 0, y: COORD_MAX + 1 } },
        ],
        color: BLACK,
        width: UNIT,
    };
    assert!(!far.is_wf());
    let circle = DrawObject::Circle {
        id: 3,
        center: pt(1, 2),
        radius: -1,
        color: BLACK,
        width: 0,
        filled: false,
    };
    assert!(!circle.is_wf());
    let f = DrawObject::LatexFormula {
        id: 4,
        pos: pt(10, 20),
        formula: String::new(),
        color: BLACK,
        cached_size: Some(Size { width: -1, height: 0 }),
    };
    assert!(!f.is_wf());
    assert!(point_in_canvas(Point { x: COORD_MAX, y: -COORD_MAX }));
    assert!(!point_in_canvas(Point { x: -COORD_MAX - 1, y: 0 }));
    assert!(length_is_valid(0));
    assert!(length_is_valid(COORD_MAX));
    assert!(!length_is_valid(-1));
}

#[test]
fn clone_keeps_every_field() {
    let s = stroke(7, &[(5, 5), (-3, 8)], 4 * UNIT);
    let copy = s.clone();
    match (&s, &copy) {
        (
            DrawObject::Stroke { id, points, color, width },
            DrawObject::Stroke { id: id2, points: points2, color: color2, width: width2 },
        ) => {
            assert_eq!(id, id2);
            assert_eq!(points, points2);
            assert_eq!(color, color2);
            assert_eq!(width, width2);
        }
        _ => panic!("a clone has another variant"),
    }
    let f = DrawObject::LatexFormula {
        id: 4,
        pos: pt(10, 20),
        formula: String::from("a+b"),
        color: [1, 2, 3, 4],
        cached_size: Some(Size { width: 3, height: 4 }),
    };
    match f.clone() {
        DrawObject::LatexFormula { id, pos, formula, color, cached_size } => {
            assert_eq!(id, 4);
            assert_eq!(pos, pt(10, 20));
            assert_eq!(formula, "a+b");
            assert_eq!(color, [1, 2, 3, 4]);
            assert_eq!(cached_size, Some(Size { width: 3, height: 4 }));
        }
        _ => panic!("a clone has another variant"),
    }
    let scene = vec![s, f];
    let copy = clone_scene(&scene);
    assert_eq!(copy.len(), 2);
    assert_eq!(copy[0].id(), 7);
    assert_eq!(copy[1].id(), 4);
    assert_eq!(copy[0].bounds(), scene[0].bounds());
}

#[test]
fn bounds_helpers() {
    let b = Bounds { min: pt(9, 9), max: pt(51, 31) };
    assert_eq!(b.center_point(), pt(30, 20));
    assert!(b.is_bounded());
    assert!(b.holds(pt(9, 31)));
    assert!(!b.holds(pt(8, 31)));
    let odd = Bounds { min: Point { x: -3, y: 0 }, max: Point { x: 0, y: 5 } };
    assert_eq!(odd.center_point(), Point { x: -2, y: 2 });
    let empty = Bounds {
        min: Point { x: i64::MAX, y: i64::MAX },
        max: Point { x: i64::MIN, y: i64::MIN },
    };
    assert!(!empty.is_bounded());
    assert_eq!(empty.center_point(), Point { x: -1, y: -1 });
}

#[test]
fn enums_compare_by_variant() {
    assert_eq!(Tool::Brush, Tool::Brush);
    assert_ne!(Tool::Line, Tool::Square);
    assert_eq!(SelectionMode::Idle, SelectionMode::Idle);
    assert_ne!(SelectionMode::Moving, SelectionMode::Scaling);
    assert_ne!(SelectionHandle::TopLeft, SelectionHandle::Rotate);
    let t = Tool::Text;
    let copy = t;
    assert_eq!(t, copy);
}
