//! The affine transform that move, scale and rotate gestures apply.
//!
//! A point is taken relative to a center, rotated, scaled axis by axis,
//! taken back, and then translated. Factors are exact fractions and the
//! rotation is a fixed-point unit vector, so a pure translation is exact.

use crate::fixed::{
    clamp_coord, floor_div, in_canvas, integer_sqrt, is_sqrt_of, isqrt, lemma_div_range,
    lemma_div_shrinks, lemma_mul_range, saturate, COORD_MAX,
};
use crate::models::{points_in_canvas, valid_length, DrawObject, Point, Shape, StrokePoint};
use vstd::arithmetic::div_mod::lemma_div_multiples_vanish;
use vstd::prelude::*;

verus! {

/// The fixed-point value of `1` in a [`Rotation`].
pub const ROT_ONE: i64 = 1_073_741_824;

/// A scale factor `num / den`.
#[derive(Debug, Clone, Copy, PartialEq, Eq, Structural)]
pub struct Ratio {
    pub num: i64,
    pub den: i64,
}

impl Ratio {
    /// The denominator is positive.
    pub open spec fn wf(self) -> bool {
        self.den > 0
    }

    /// `v` times the factor, rounded down.
    pub open spec fn apply(self, v: int) -> int {
        (v * self.num) / (self.den as int)
    }

    /// `self` is a greater factor than `other`.
    pub open spec fn exceeds(self, other: Ratio) -> bool {
        self.num * other.den > other.num * self.den
    }

    /// The factor `1`.
    pub fn one() -> (r: Ratio)
        ensures
            r == (Ratio { num: 1, den: 1 }),
    {
        Ratio { num: 1, den: 1 }
    }
}

/// A scale factor for each axis.
#[derive(Debug, Clone, Copy, PartialEq, Eq, Structural)]
pub struct Scale {
    pub x: Ratio,
    pub y: Ratio,
}

impl Scale {
    /// Both factors are well-formed.
    pub open spec fn wf(self) -> bool {
        self.x.wf() && self.y.wf()
    }

    /// The greater of the two factors; the vertical one when they are equal.
    pub open spec fn greater(self) -> Ratio {
        if self.x.exceeds(self.y) {
            self.x
        } else {
            self.y
        }
    }

    /// The image of a radius: scaled by the greater of the two factors and
    /// kept between zero and the largest length.
    pub open spec fn radius(self, r: i64) -> i64 {
        let scaled = self.greater().apply(r as int);
        if scaled < 0 {
            0
        } else {
            clamp_coord(scaled) as i64
        }
    }

    /// The factor `1` on both axes.
    pub fn one() -> (s: Scale)
        ensures
            s == (Scale { x: Ratio { num: 1, den: 1 }, y: Ratio { num: 1, den: 1 } }),
    {
        Scale { x: Ratio::one(), y: Ratio::one() }
    }
}

/// A rotation, given by the cosine and sine of its angle in units of
/// `1 / ROT_ONE`. Positive angles turn the x axis toward the y axis.
#[derive(Debug, Clone, Copy, PartialEq, Eq, Structural)]
pub struct Rotation {
    pub cos: i64,
    pub sin: i64,
}

impl Rotation {
    /// Cosine and sine lie between `-1` and `1`.
    pub open spec fn wf(self) -> bool {
        -ROT_ONE <= self.cos <= ROT_ONE && -ROT_ONE <= self.sin <= ROT_ONE
    }

    /// The horizontal part of the vector `(dx, dy)` after the rotation.
    pub open spec fn turn_x(self, dx: int, dy: int) -> int {
        (dx * self.cos - dy * self.sin) / (ROT_ONE as int)
    }

    /// The vertical part of the vector `(dx, dy)` after the rotation.
    pub open spec fn turn_y(self, dx: int, dy: int) -> int {
        (dx * self.sin + dy * self.cos) / (ROT_ONE as int)
    }

    /// The rotation by the angle zero.
    pub fn identity() -> (r: Rotation)
        ensures
            r == (Rotation { cos: ROT_ONE, sin: 0 }),
            r.wf(),
    {
        Rotation { cos: ROT_ONE, sin: 0 }
    }
}

/// The factor by which a vector is enlarged before its length is taken, so
/// that the rounded length is precise.
pub const NORM_SCALE: i64 = 32768;

/// The length of the vector `(vx, vy)` times [`NORM_SCALE`], rounded down.
pub open spec fn scaled_norm(vx: int, vy: int) -> int {
    isqrt(((vx * vx + vy * vy) * (NORM_SCALE * NORM_SCALE)) as nat) as int
}

/// The unit vector along `(vx, vy)` in units of `1 / ROT_ONE`. The zero
/// vector has the direction of the x axis.
pub open spec fn direction(vx: int, vy: int) -> (int, int) {
    if vx == 0 && vy == 0 {
        (ROT_ONE as int, 0)
    } else {
        (
            (vx * NORM_SCALE * ROT_ONE) / scaled_norm(vx, vy),
            (vy * NORM_SCALE * ROT_ONE) / scaled_norm(vx, vy),
        )
    }
}

/// `v` kept between `-ROT_ONE` and `ROT_ONE`.
pub open spec fn clamp_unit(v: int) -> int {
    if v < -ROT_ONE {
        -(ROT_ONE as int)
    } else if v > ROT_ONE {
        ROT_ONE as int
    } else {
        v
    }
}

/// The rotation about `center` that turns the direction of `from` into the
/// direction of `to`: its angle is the angle of `to` minus the angle of
/// `from`, both seen from `center`. The cosine is the dot product of the
/// two unit vectors and the sine is their cross product.
pub open spec fn rotation_between(center: Point, from: Point, to: Point) -> Rotation {
    let a = direction(from.x - center.x, from.y - center.y);
    let b = direction(to.x - center.x, to.y - center.y);
    Rotation {
        cos: clamp_unit((a.0 * b.0 + a.1 * b.1) / (ROT_ONE as int)) as i64,
        sin: clamp_unit((a.0 * b.1 - a.1 * b.0) / (ROT_ONE as int)) as i64,
    }
}

proof fn lemma_norm_dominates(v: int, w: int, n: int)
    requires
        n >= 0,
        is_sqrt_of(n as nat, ((v * v + w * w) * (NORM_SCALE * NORM_SCALE)) as nat),
    ensures
        -n <= v * NORM_SCALE <= n,
        (v != 0 || w != 0) ==> n >= NORM_SCALE,
{
    let k = NORM_SCALE as int;
    let total = (v * v + w * w) * (k * k);
    assert(total >= 0) by (nonlinear_arith)
        requires
            total == (v * v + w * w) * (k * k),
    ;
    assert(v * k <= n && -n <= v * k) by (nonlinear_arith)
        requires
            total == (v * v + w * w) * (k * k),
            total < (n + 1) * (n + 1),
            n >= 0,
            k > 0,
    {
        assert((v * k) * (v * k) <= total);
        if v * k > n {
            assert((v * k) * (v * k) >= (n + 1) * (n + 1));
        }
        if v * k < -n {
            assert((v * k) * (v * k) >= (n + 1) * (n + 1));
        }
    }
    if v != 0 || w != 0 {
        assert(n >= k) by (nonlinear_arith)
            requires
                total == (v * v + w * w) * (k * k),
                total < (n + 1) * (n + 1),
                n >= 0,
                k > 0,
                v != 0 || w != 0,
        {
            assert(v * v + w * w >= 1);
            assert(total >= k * k);
            if n < k {
                assert((n + 1) * (n + 1) <= k * k);
            }
        }
    }
}

fn unit_vector(vx: i128, vy: i128) -> (u: (i128, i128))
    requires
        -2 * COORD_MAX <= vx <= 2 * COORD_MAX,
        -2 * COORD_MAX <= vy <= 2 * COORD_MAX,
    ensures
        u.0 == direction(vx as int, vy as int).0,
        u.1 == direction(vx as int, vy as int).1,
        -ROT_ONE <= u.0 <= ROT_ONE,
        -ROT_ONE <= u.1 <= ROT_ONE,
{
    if vx == 0 && vy == 0 {
        return (ROT_ONE as i128, 0);
    }
    proof {
        lemma_mul_range(vx as int, vx as int, 200_000_000_000_000, 200_000_000_000_000);
        lemma_mul_range(vy as int, vy as int, 200_000_000_000_000, 200_000_000_000_000);
        assert(vx * vx >= 0) by (nonlinear_arith);
        assert(vy * vy >= 0) by (nonlinear_arith);
    }
    let square: i128 = vx * vx + vy * vy;
    let enlarge: u128 = (NORM_SCALE as u128) * (NORM_SCALE as u128);
    assert(enlarge == 1_073_741_824);
    let total: u128 = (square as u128) * enlarge;
    let n: i128 = integer_sqrt(total) as i128;
    proof {
        assert(total == (vx * vx + vy * vy) * (NORM_SCALE * NORM_SCALE));
        lemma_norm_dominates(vx as int, vy as int, n as int);
        lemma_norm_dominates(vy as int, vx as int, n as int);
        assert(n == scaled_norm(vx as int, vy as int));
        assert(-(ROT_ONE * n) <= vx * NORM_SCALE * ROT_ONE <= ROT_ONE * n);
        assert(-(ROT_ONE * n) <= vy * NORM_SCALE * ROT_ONE <= ROT_ONE * n);
        lemma_div_range(vx * NORM_SCALE * ROT_ONE, n as int, ROT_ONE as int);
        lemma_div_range(vy * NORM_SCALE * ROT_ONE, n as int, ROT_ONE as int);
    }
    (
        floor_div(vx * (NORM_SCALE as i128) * (ROT_ONE as i128), n),
        floor_div(vy * (NORM_SCALE as i128) * (ROT_ONE as i128), n),
    )
}

fn unit_clamp(v: i128) -> (r: i64)
    ensures
        r == clamp_unit(v as int),
        -ROT_ONE <= r <= ROT_ONE,
{
    if v < -(ROT_ONE as i128) {
        -ROT_ONE
    } else if v > ROT_ONE as i128 {
        ROT_ONE
    } else {
        v as i64
    }
}

impl Rotation {
    /// Computes the rotation about `center` that turns the direction of
    /// `from` into the direction of `to`.
    pub fn between(center: Point, from: Point, to: Point) -> (r: Rotation)
        requires
            center.in_canvas(),
            from.in_canvas(),
            to.in_canvas(),
        ensures
            r == rotation_between(center, from, to),
            r.wf(),
    {
        let a: (i128, i128) = unit_vector(
            from.x as i128 - center.x as i128,
            from.y as i128 - center.y as i128,
        );
        let b: (i128, i128) = unit_vector(
            to.x as i128 - center.x as i128,
            to.y as i128 - center.y as i128,
        );
        proof {
            lemma_mul_range(a.0 as int, b.0 as int, ROT_ONE as int, ROT_ONE as int);
            lemma_mul_range(a.1 as int, b.1 as int, ROT_ONE as int, ROT_ONE as int);
            lemma_mul_range(a.0 as int, b.1 as int, ROT_ONE as int, ROT_ONE as int);
            lemma_mul_range(a.1 as int, b.0 as int, ROT_ONE as int, ROT_ONE as int);
        }
        let dot: i128 = a.0 * b.0 + a.1 * b.1;
        let cross: i128 = a.0 * b.1 - a.1 * b.0;
        Rotation {
            cos: unit_clamp(floor_div(dot, ROT_ONE as i128)),
            sin: unit_clamp(floor_div(cross, ROT_ONE as i128)),
        }
    }
}

/// The parameters of one transform.
pub struct Transform {
    pub scale: Scale,
    pub rotation: Rotation,
    pub translation: Point,
    pub center: Point,
}

impl Transform {
    /// The parts are well-formed and the center lies in the coordinate range.
    pub open spec fn wf(self) -> bool {
        self.scale.wf() && self.rotation.wf() && self.center.in_canvas()
    }

    /// The image of the point `p`: relative to the center, rotated, scaled,
    /// taken back, translated, and saturated to the coordinate range.
    pub open spec fn point(self, p: Point) -> Point {
        let dx = p.x - self.center.x;
        let dy = p.y - self.center.y;
        let rx = self.rotation.turn_x(dx, dy);
        let ry = self.rotation.turn_y(dx, dy);
        Point {
            x: clamp_coord(self.scale.x.apply(rx) + self.center.x + self.translation.x) as i64,
            y: clamp_coord(self.scale.y.apply(ry) + self.center.y + self.translation.y) as i64,
        }
    }

    /// The image of the points of a stroke.
    pub open spec fn points(self, points: Seq<StrokePoint>) -> Seq<StrokePoint> {
        Seq::new(points.len(), |i: int| StrokePoint { pos: self.point(points[i].pos) })
    }

    /// The image of an object. A stroke moves every point, a line both ends,
    /// a rectangle both corners, each on its own; a circle moves its center
    /// and scales its radius; a formula moves its anchor only.
    pub open spec fn shape(self, s: Shape) -> Shape {
        match s {
            Shape::Stroke { id, points, color, width } => Shape::Stroke {
                id,
                points: self.points(points),
                color,
                width,
            },
            Shape::Line { id, start, end, color, width } => Shape::Line {
                id,
                start: self.point(start),
                end: self.point(end),
                color,
                width,
            },
            Shape::Circle { id, center, radius, color, width, filled } => Shape::Circle {
                id,
                center: self.point(center),
                radius: self.scale.radius(radius),
                color,
                width,
                filled,
            },
            Shape::Rectangle { id, min, max, color, width, filled } => Shape::Rectangle {
                id,
                min: self.point(min),
                max: self.point(max),
                color,
                width,
                filled,
            },
            Shape::LatexFormula { id, pos, formula, color, cached_size } => Shape::LatexFormula {
                id,
                pos: self.point(pos),
                formula,
                color,
                cached_size,
            },
        }
    }
}

/// Applies a transform to one point.
pub fn transform_point(
    p: Point,
    scale: Scale,
    rotation: Rotation,
    translation: Point,
    center: Point,
) -> (moved: Point)
    requires
        p.in_canvas(),
        (Transform { scale, rotation, translation, center }).wf(),
    ensures
        moved == (Transform { scale, rotation, translation, center }).point(p),
        moved.in_canvas(),
{
    let dx: i128 = p.x as i128 - center.x as i128;
    let dy: i128 = p.y as i128 - center.y as i128;
    let x: i64 = transform_axis(
        dx,
        dy,
        rotation.cos,
        -(rotation.sin as i128),
        scale.x,
        center.x,
        translation.x,
    );
    let y: i64 = transform_axis(
        dy,
        dx,
        rotation.cos,
        rotation.sin as i128,
        scale.y,
        center.y,
        translation.y,
    );
    proof {
        let c = rotation.cos as int;
        let s = rotation.sin as int;
        assert(dx * c + dy * (-s) == dx * c - dy * s) by (nonlinear_arith);
        assert(dy * c + dx * s == dx * s + dy * c) by (nonlinear_arith);
    }
    Point { x, y }
}

/// One axis of a transform: `(a * cos + b * sin) / ROT_ONE`, scaled, taken
/// back to `center` and translated.
fn transform_axis(
    a: i128,
    b: i128,
    cos: i64,
    sin: i128,
    factor: Ratio,
    center: i64,
    translation: i64,
) -> (r: i64)
    requires
        -2 * COORD_MAX <= a <= 2 * COORD_MAX,
        -2 * COORD_MAX <= b <= 2 * COORD_MAX,
        -ROT_ONE <= cos <= ROT_ONE,
        -ROT_ONE <= sin <= ROT_ONE,
        factor.wf(),
        in_canvas(center as int),
    ensures
        r == clamp_coord(
            factor.apply((a * cos + b * sin) / (ROT_ONE as int)) + center + translation,
        ),
        in_canvas(r as int),
{
    proof {
        lemma_mul_range(a as int, cos as int, 2 * COORD_MAX, ROT_ONE as int);
        lemma_mul_range(b as int, sin as int, 2 * COORD_MAX, ROT_ONE as int);
    }
    let turned: i128 = floor_div(a * (cos as i128) + b * sin, ROT_ONE as i128);
    proof {
        assert(4 * COORD_MAX * ROT_ONE == (4 * COORD_MAX) * ROT_ONE);
        lemma_div_range(a * cos + b * sin, ROT_ONE as int, 4 * COORD_MAX);
        lemma_mul_range(turned as int, factor.num as int, 4 * COORD_MAX, 0x8000_0000_0000_0000);
    }
    let scaled: i128 = floor_div(turned * (factor.num as i128), factor.den as i128);
    proof {
        lemma_div_shrinks(
            turned * factor.num,
            factor.den as int,
            4 * COORD_MAX * 0x8000_0000_0000_0000,
        );
    }
    saturate(scaled + center as i128 + translation as i128)
}

/// Scales a radius by the greater of the two factors.
pub fn transform_radius(radius: i64, scale: Scale) -> (r: i64)
    requires
        valid_length(radius),
        scale.wf(),
    ensures
        r == scale.radius(radius),
        valid_length(r),
{
    proof {
        lemma_mul_range(
            scale.x.num as int,
            scale.y.den as int,
            0x8000_0000_0000_0000,
            0x8000_0000_0000_0000,
        );
        lemma_mul_range(
            scale.y.num as int,
            scale.x.den as int,
            0x8000_0000_0000_0000,
            0x8000_0000_0000_0000,
        );
    }
    let x_greater: bool = (scale.x.num as i128) * (scale.y.den as i128) > (scale.y.num as i128) * (
    scale.x.den as i128);
    let factor: Ratio = if x_greater {
        scale.x
    } else {
        scale.y
    };
    proof {
        lemma_mul_range(
            radius as int,
            factor.num as int,
            COORD_MAX as int,
            0x8000_0000_0000_0000,
        );
    }
    let scaled: i128 = floor_div((radius as i128) * (factor.num as i128), factor.den as i128);
    if scaled < 0 {
        0
    } else {
        saturate(scaled)
    }
}

/// Applies a transform to one object.
pub fn transform_object(
    obj: &DrawObject,
    scale: Scale,
    rotation: Rotation,
    translation: Point,
    center: Point,
) -> (moved: DrawObject)
    requires
        obj.wf(),
        (Transform { scale, rotation, translation, center }).wf(),
    ensures
        moved@ == (Transform { scale, rotation, translation, center }).shape(obj@),
        moved.wf(),
{
    let ghost t = Transform { scale, rotation, translation, center };
    match obj {
        DrawObject::Stroke { id, points, color, width } => {
            let mut moved_points: Vec<StrokePoint> = Vec::new();
            let mut i: usize = 0;
            while i < points.len()
                invariant
                    i <= points.len(),
                    t == (Transform { scale, rotation, translation, center }),
                    t.wf(),
                    points_in_canvas(points@),
                    points_in_canvas(moved_points@),
                    moved_points@ == t.points(points@).take(i as int),
                decreases points.len() - i,
            {
                let moved_point: Point = transform_point(
                    points[i].pos,
                    scale,
                    rotation,
                    translation,
                    center,
                );
                moved_points.push(StrokePoint { pos: moved_point });
                assert(moved_points@ == t.points(points@).take(i + 1));
                i += 1;
            }
            assert(moved_points@ == t.points(points@));
            DrawObject::Stroke { id: *id, points: moved_points, color: *color, width: *width }
        },
        DrawObject::Line { id, start, end, color, width } => DrawObject::Line {
            id: *id,
            start: transform_point(*start, scale, rotation, translation, center),
            end: transform_point(*end, scale, rotation, translation, center),
            color: *color,
            width: *width,
        },
        DrawObject::Circle { id, center: circle_center, radius, color, width, filled } => {
            DrawObject::Circle {
                id: *id,
                center: transform_point(*circle_center, scale, rotation, translation, center),
                radius: transform_radius(*radius, scale),
                color: *color,
                width: *width,
                filled: *filled,
            }
        },
        DrawObject::Rectangle { id, min, max, color, width, filled } => DrawObject::Rectangle {
            id: *id,
            min: transform_point(*min, scale, rotation, translation, center),
            max: transform_point(*max, scale, rotation, translation, center),
            color: *color,
            width: *width,
            filled: *filled,
        },
        DrawObject::LatexFormula { id, pos, formula, color, cached_size } => {
            DrawObject::LatexFormula {
                id: *id,
                pos: transform_point(*pos, scale, rotation, translation, center),
                formula: formula.clone(),
                color: *color,
                cached_size: *cached_size,
            }
        },
    }
}

/// The transform of a move: no scaling, no rotation, a translation by
/// `delta`. The center does not matter to it.
pub open spec fn move_by(delta: Point, center: Point) -> Transform {
    Transform {
        scale: Scale { x: Ratio { num: 1, den: 1 }, y: Ratio { num: 1, den: 1 } },
        rotation: Rotation { cos: ROT_ONE, sin: 0 },
        translation: delta,
        center,
    }
}

/// `p` moved by `delta` is still in the coordinate range.
pub open spec fn point_stays(p: Point, delta: Point) -> bool {
    in_canvas(p.x + delta.x) && in_canvas(p.y + delta.y)
}

/// The object moved by `delta` is still in the coordinate range.
pub open spec fn shape_stays(s: Shape, delta: Point) -> bool {
    match s {
        Shape::Stroke { points, .. } => forall|i: int|
            0 <= i < points.len() ==> point_stays((#[trigger] points[i]).pos, delta),
        Shape::Line { start, end, .. } => point_stays(start, delta) && point_stays(end, delta),
        Shape::Circle { center, .. } => point_stays(center, delta),
        Shape::Rectangle { min, max, .. } => point_stays(min, delta) && point_stays(max, delta),
        Shape::LatexFormula { pos, .. } => point_stays(pos, delta),
    }
}

/// A move adds `delta` to a point exactly, up to saturation.
pub proof fn lemma_move_point(p: Point, delta: Point, center: Point)
    ensures
        move_by(delta, center).point(p) == (Point {
            x: clamp_coord(p.x + delta.x) as i64,
            y: clamp_coord(p.y + delta.y) as i64,
        }),
{
    let dx = p.x - center.x;
    let dy = p.y - center.y;
    let one = ROT_ONE as int;
    assert((dx * one - dy * 0) / one == dx) by {
        assert(dx * one - dy * 0 == dx * one) by (nonlinear_arith);
        lemma_div_multiples_vanish(dx, one);
    }
    assert((dx * 0 + dy * one) / one == dy) by {
        assert(dx * 0 + dy * one == dy * one) by (nonlinear_arith);
        lemma_div_multiples_vanish(dy, one);
    }
    assert((dx * 1) / 1 == dx);
    assert((dy * 1) / 1 == dy);
}

/// A move is reversible: moving a well-formed object by `delta` and then
/// by the opposite of `delta` gives the object back, whatever the two
/// centers, as long as the first move keeps it in the coordinate range.
pub proof fn lemma_move_back_shape(s: Shape, delta: Point, back: Point, c1: Point, c2: Point)
    requires
        s.wf(),
        back.x == -delta.x,
        back.y == -delta.y,
        shape_stays(s, delta),
    ensures
        move_by(back, c2).shape(move_by(delta, c1).shape(s)) == s,
{
    let t1 = move_by(delta, c1);
    let t2 = move_by(back, c2);
    assert forall|p: Point| p.in_canvas() && point_stays(p, delta) implies t2.point(
        #[trigger] t1.point(p),
    ) == p by {
        lemma_move_point(p, delta, c1);
        lemma_move_point(t1.point(p), back, c2);
    }
    match s {
        Shape::Stroke { points, .. } => {
            assert(t2.points(t1.points(points)) =~= points);
        },
        Shape::Circle { radius, .. } => {
            assert((radius * 1) / 1 == radius);
        },
        _ => {},
    }
}

} // verus!
