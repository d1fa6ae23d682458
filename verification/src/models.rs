//! The drawable object model.

use crate::fixed::{clamp_coord, floor_div, in_canvas, saturate, COORD_MAX};
use vstd::prelude::*;

verus! {

/// The drawing tools.
#[derive(Debug, Clone, Copy, PartialEq, Eq, Structural)]
pub enum Tool {
    Brush,
    Line,
    Circle,
    Square,
    Eraser,
    Select,
    Text,
}

/// The states of a selection gesture.
#[derive(Debug, Clone, Copy, PartialEq, Eq, Structural)]
pub enum SelectionMode {
    Idle,
    Selecting,
    Moving,
    Scaling,
    Rotating,
}

/// The hotspots on a selection's bounding box.
#[derive(Debug, Clone, Copy, PartialEq, Eq, Structural)]
pub enum SelectionHandle {
    TopLeft,
    TopRight,
    BottomLeft,
    BottomRight,
    Top,
    Bottom,
    Left,
    Right,
    Rotate,
}

/// A point, in ticks.
#[derive(Debug, Clone, Copy, PartialEq, Eq, Structural)]
pub struct Point {
    pub x: i64,
    pub y: i64,
}

impl Point {
    /// Both coordinates lie in the coordinate range.
    pub open spec fn in_canvas(self) -> bool {
        in_canvas(self.x as int) && in_canvas(self.y as int)
    }
}

/// The rendered extent of a formula glyph, in ticks.
#[derive(Debug, Clone, Copy, PartialEq, Eq, Structural)]
pub struct Size {
    pub width: i64,
    pub height: i64,
}

/// Width of the placeholder box of a formula that has not been rendered yet.
pub const PLACEHOLDER_WIDTH: i64 = 100_000_000;

/// Height of the placeholder box of a formula that has not been rendered yet.
pub const PLACEHOLDER_HEIGHT: i64 = 40_000_000;

/// An axis-aligned box given by two corners. Nothing orders the corners:
/// a box with `min` beyond `max` on an axis is inverted and contains no
/// point.
#[derive(Debug, Clone, Copy, PartialEq, Eq, Structural)]
pub struct Bounds {
    pub min: Point,
    pub max: Point,
}

impl Bounds {
    /// The box that is just the point `p`.
    pub open spec fn at(p: Point) -> Bounds {
        Bounds { min: p, max: p }
    }

    /// The smallest box that holds `self` and `p`.
    pub open spec fn including(self, p: Point) -> Bounds {
        Bounds {
            min: Point {
                x: if p.x < self.min.x { p.x } else { self.min.x },
                y: if p.y < self.min.y { p.y } else { self.min.y },
            },
            max: Point {
                x: if p.x > self.max.x { p.x } else { self.max.x },
                y: if p.y > self.max.y { p.y } else { self.max.y },
            },
        }
    }

    /// The smallest box that holds `self` and `other`: the lesser of the two
    /// `min` corners and the greater of the two `max` corners, axis by axis.
    pub open spec fn union(self, other: Bounds) -> Bounds {
        Bounds {
            min: Point {
                x: if other.min.x < self.min.x { other.min.x } else { self.min.x },
                y: if other.min.y < self.min.y { other.min.y } else { self.min.y },
            },
            max: Point {
                x: if other.max.x > self.max.x { other.max.x } else { self.max.x },
                y: if other.max.y > self.max.y { other.max.y } else { self.max.y },
            },
        }
    }

    /// `p` lies in the box, edges included.
    pub open spec fn contains(self, p: Point) -> bool {
        self.min.x <= p.x <= self.max.x && self.min.y <= p.y <= self.max.y
    }

    /// `inner` lies fully in the box, edges included.
    pub open spec fn encloses(self, inner: Bounds) -> bool {
        &&& inner.min.x >= self.min.x
        &&& inner.max.x <= self.max.x
        &&& inner.min.y >= self.min.y
        &&& inner.max.y <= self.max.y
    }

    /// The horizontal extent; negative for an inverted box.
    pub open spec fn width(self) -> int {
        self.max.x - self.min.x
    }

    /// The vertical extent; negative for an inverted box.
    pub open spec fn height(self) -> int {
        self.max.y - self.min.y
    }

    /// The center, each coordinate rounded down and saturated.
    pub open spec fn center(self) -> Point {
        Point {
            x: clamp_coord((self.min.x + self.max.x) / 2) as i64,
            y: clamp_coord((self.min.y + self.max.y) / 2) as i64,
        }
    }

    /// All four limits lie within [`BOUNDS_MAX`] of the origin, as the
    /// bounds of every well-formed object do.
    pub open spec fn bounded(self) -> bool {
        &&& -BOUNDS_MAX <= self.min.x <= BOUNDS_MAX
        &&& -BOUNDS_MAX <= self.min.y <= BOUNDS_MAX
        &&& -BOUNDS_MAX <= self.max.x <= BOUNDS_MAX
        &&& -BOUNDS_MAX <= self.max.y <= BOUNDS_MAX
    }

    /// Computes the center.
    pub fn center_point(&self) -> (c: Point)
        ensures
            c == self.center(),
            c.in_canvas(),
    {
        Point {
            x: saturate(floor_div(self.min.x as i128 + self.max.x as i128, 2)),
            y: saturate(floor_div(self.min.y as i128 + self.max.y as i128, 2)),
        }
    }

    /// Tests whether the box is [`bounded`](Bounds::bounded).
    pub fn is_bounded(&self) -> (b: bool)
        ensures
            b == self.bounded(),
    {
        -BOUNDS_MAX <= self.min.x && self.min.x <= BOUNDS_MAX && -BOUNDS_MAX <= self.min.y
            && self.min.y <= BOUNDS_MAX && -BOUNDS_MAX <= self.max.x && self.max.x <= BOUNDS_MAX
            && -BOUNDS_MAX <= self.max.y && self.max.y <= BOUNDS_MAX
    }

    /// Tests whether `p` lies in the box, edges included.
    pub fn holds(&self, p: Point) -> (inside: bool)
        ensures
            inside == self.contains(p),
    {
        p.x >= self.min.x && p.x <= self.max.x && p.y >= self.min.y && p.y <= self.max.y
    }
}

/// The farthest from the origin that the bounds of a well-formed object
/// reach on either axis.
pub const BOUNDS_MAX: i64 = 300_000_000_000_000;

/// One captured point of a freehand stroke.
#[derive(Debug, Clone, Copy, PartialEq, Eq, Structural)]
pub struct StrokePoint {
    pub pos: Point,
}

/// The tight box around the points of a stroke; the box at the origin when
/// there is none.
pub open spec fn hull(points: Seq<StrokePoint>) -> Bounds
    decreases points.len(),
{
    if points.len() == 0 {
        Bounds::at(Point { x: 0, y: 0 })
    } else if points.len() == 1 {
        Bounds::at(points[0].pos)
    } else {
        hull(points.drop_last()).including(points.last().pos)
    }
}

/// All points of a stroke lie in the coordinate range.
pub open spec fn points_in_canvas(points: Seq<StrokePoint>) -> bool {
    forall|i: int| 0 <= i < points.len() ==> (#[trigger] points[i]).pos.in_canvas()
}

/// A length that fits the coordinate range.
pub open spec fn valid_length(v: i64) -> bool {
    0 <= v <= COORD_MAX
}

/// A drawable object as a mathematical value.
pub enum Shape {
    Stroke { id: u128, points: Seq<StrokePoint>, color: [u8; 4], width: i64 },
    Line { id: u128, start: Point, end: Point, color: [u8; 4], width: i64 },
    Circle { id: u128, center: Point, radius: i64, color: [u8; 4], width: i64, filled: bool },
    Rectangle { id: u128, min: Point, max: Point, color: [u8; 4], width: i64, filled: bool },
    LatexFormula {
        id: u128,
        pos: Point,
        formula: Seq<char>,
        color: [u8; 4],
        cached_size: Option<Size>,
    },
}

impl Shape {
    /// The object's identifier.
    pub open spec fn id(self) -> u128 {
        match self {
            Shape::Stroke { id, .. } => id,
            Shape::Line { id, .. } => id,
            Shape::Circle { id, .. } => id,
            Shape::Rectangle { id, .. } => id,
            Shape::LatexFormula { id, .. } => id,
        }
    }

    /// Coordinates lie in the coordinate range and lengths are non-negative
    /// and fit it.
    pub open spec fn wf(self) -> bool {
        match self {
            Shape::Stroke { points, width, .. } => points_in_canvas(points) && valid_length(width),
            Shape::Line { start, end, width, .. } => {
                start.in_canvas() && end.in_canvas() && valid_length(width)
            },
            Shape::Circle { center, radius, width, .. } => {
                center.in_canvas() && valid_length(radius) && valid_length(width)
            },
            Shape::Rectangle { min, max, width, .. } => {
                min.in_canvas() && max.in_canvas() && valid_length(width)
            },
            Shape::LatexFormula { pos, cached_size, .. } => {
                &&& pos.in_canvas()
                &&& cached_size matches Some(size) ==> valid_length(size.width) && valid_length(
                    size.height,
                )
            },
        }
    }

    /// The axis-aligned bounding box. Strokes, lines, circles and rectangles
    /// extend their geometry by half the stroke width on every side; a stroke
    /// without points has the empty box at the origin; a formula spans its
    /// rendered size from its anchor, or the placeholder size while it has
    /// none.
    pub open spec fn bounds(self) -> Bounds {
        match self {
            Shape::Stroke { points, width, .. } => {
                if points.len() == 0 {
                    Bounds::at(Point { x: 0, y: 0 })
                } else {
                    grow(hull(points), width / 2)
                }
            },
            Shape::Line { start, end, width, .. } => {
                grow(Bounds::at(start).including(end), width / 2)
            },
            Shape::Circle { center, radius, width, .. } => {
                grow(Bounds::at(center), radius + width / 2)
            },
            Shape::Rectangle { min, max, width, .. } => grow(Bounds { min, max }, width / 2),
            Shape::LatexFormula { pos, cached_size, .. } => {
                let size = match cached_size {
                    Some(size) => size,
                    None => Size { width: PLACEHOLDER_WIDTH, height: PLACEHOLDER_HEIGHT },
                };
                Bounds {
                    min: pos,
                    max: Point { x: (pos.x + size.width) as i64, y: (pos.y + size.height) as i64 },
                }
            },
        }
    }

    /// `p` lies in the bounding box, edges included.
    pub open spec fn contains_point(self, p: Point) -> bool {
        self.bounds().contains(p)
    }
}

/// The bounds of a well-formed object are [`bounded`](Bounds::bounded).
pub proof fn lemma_bounds_bounded(s: Shape)
    requires
        s.wf(),
    ensures
        s.bounds().bounded(),
{
    if let Shape::Stroke { points, .. } = s {
        lemma_hull_in_canvas(points);
    }
}

/// The hull of points of the canvas lies in the canvas.
pub proof fn lemma_hull_in_canvas(points: Seq<StrokePoint>)
    requires
        points_in_canvas(points),
    ensures
        hull(points).min.in_canvas(),
        hull(points).max.in_canvas(),
    decreases points.len(),
{
    if points.len() >= 2 {
        lemma_hull_in_canvas(points.drop_last());
    }
}

/// `b` pushed outward by `margin` on every side.
pub open spec fn grow(b: Bounds, margin: int) -> Bounds {
    Bounds {
        min: Point { x: (b.min.x - margin) as i64, y: (b.min.y - margin) as i64 },
        max: Point { x: (b.max.x + margin) as i64, y: (b.max.y + margin) as i64 },
    }
}

/// A drawable object.
#[derive(Debug)]
pub enum DrawObject {
    Stroke { id: u128, points: Vec<StrokePoint>, color: [u8; 4], width: i64 },
    Line { id: u128, start: Point, end: Point, color: [u8; 4], width: i64 },
    Circle { id: u128, center: Point, radius: i64, color: [u8; 4], width: i64, filled: bool },
    Rectangle { id: u128, min: Point, max: Point, color: [u8; 4], width: i64, filled: bool },
    LatexFormula {
        id: u128,
        pos: Point,
        formula: String,
        color: [u8; 4],
        cached_size: Option<Size>,
    },
}

impl View for DrawObject {
    type V = Shape;

    open spec fn view(&self) -> Shape {
        match *self {
            DrawObject::Stroke { id, points, color, width } => Shape::Stroke {
                id,
                points: points@,
                color,
                width,
            },
            DrawObject::Line { id, start, end, color, width } => Shape::Line {
                id,
                start,
                end,
                color,
                width,
            },
            DrawObject::Circle { id, center, radius, color, width, filled } => Shape::Circle {
                id,
                center,
                radius,
                color,
                width,
                filled,
            },
            DrawObject::Rectangle { id, min, max, color, width, filled } => Shape::Rectangle {
                id,
                min,
                max,
                color,
                width,
                filled,
            },
            DrawObject::LatexFormula { id, pos, formula, color, cached_size } => {
                Shape::LatexFormula { id, pos, formula: formula@, color, cached_size }
            },
        }
    }
}

impl DeepView for DrawObject {
    type V = Shape;

    open spec fn deep_view(&self) -> Shape {
        self@
    }
}

impl Clone for DrawObject {
    fn clone(&self) -> (copy: Self)
        ensures
            copy@ == self@,
    {
        match self {
            DrawObject::Stroke { id, points, color, width } => {
                let mut copied: Vec<StrokePoint> = Vec::new();
                let mut i: usize = 0;
                while i < points.len()
                    invariant
                        i <= points.len(),
                        copied@ == points@.take(i as int),
                    decreases points.len() - i,
                {
                    copied.push(points[i]);
                    assert(points@.take(i + 1) == points@.take(i as int).push(points@[i as int]));
                    i += 1;
                }
                assert(points@.take(points.len() as int) == points@);
                DrawObject::Stroke { id: *id, points: copied, color: *color, width: *width }
            },
            DrawObject::Line { id, start, end, color, width } => DrawObject::Line {
                id: *id,
                start: *start,
                end: *end,
                color: *color,
                width: *width,
            },
            DrawObject::Circle { id, center, radius, color, width, filled } => DrawObject::Circle {
                id: *id,
                center: *center,
                radius: *radius,
                color: *color,
                width: *width,
                filled: *filled,
            },
            DrawObject::Rectangle { id, min, max, color, width, filled } => DrawObject::Rectangle {
                id: *id,
                min: *min,
                max: *max,
                color: *color,
                width: *width,
                filled: *filled,
            },
            DrawObject::LatexFormula { id, pos, formula, color, cached_size } => {
                DrawObject::LatexFormula {
                    id: *id,
                    pos: *pos,
                    formula: formula.clone(),
                    color: *color,
                    cached_size: *cached_size,
                }
            },
        }
    }
}

impl DrawObject {
    /// See [`Shape::wf`].
    pub open spec fn wf(&self) -> bool {
        self@.wf()
    }

    /// Tests whether the object is well-formed.
    pub fn is_wf(&self) -> (ok: bool)
        ensures
            ok == self.wf(),
    {
        match self {
            DrawObject::Stroke { points, width, .. } => {
                let mut i: usize = 0;
                while i < points.len()
                    invariant
                        i <= points.len(),
                        points_in_canvas(points@.take(i as int)),
                        self.wf() == (points_in_canvas(points@) && valid_length(*width)),
                    decreases points.len() - i,
                {
                    if !point_in_canvas(points[i].pos) {
                        assert(!points@[i as int].pos.in_canvas());
                        return false;
                    }
                    assert forall|j: int| 0 <= j < i + 1 implies (#[trigger] points@.take(
                        i + 1,
                    )[j]).pos.in_canvas() by {
                        if j < i {
                            assert(points@.take(i as int)[j] == points@[j]);
                        }
                    }
                    i += 1;
                }
                assert(points@.take(points.len() as int) == points@);
                length_is_valid(*width)
            },
            DrawObject::Line { start, end, width, .. } => {
                point_in_canvas(*start) && point_in_canvas(*end) && length_is_valid(*width)
            },
            DrawObject::Circle { center, radius, width, .. } => {
                point_in_canvas(*center) && length_is_valid(*radius) && length_is_valid(*width)
            },
            DrawObject::Rectangle { min, max, width, .. } => {
                point_in_canvas(*min) && point_in_canvas(*max) && length_is_valid(*width)
            },
            DrawObject::LatexFormula { pos, cached_size, .. } => {
                point_in_canvas(*pos) && match cached_size {
                    Some(size) => length_is_valid(size.width) && length_is_valid(size.height),
                    None => true,
                }
            },
        }
    }

    /// The object's identifier.
    pub fn id(&self) -> (id: u128)
        ensures
            id == self@.id(),
    {
        match self {
            DrawObject::Stroke { id, .. } => *id,
            DrawObject::Line { id, .. } => *id,
            DrawObject::Circle { id, .. } => *id,
            DrawObject::Rectangle { id, .. } => *id,
            DrawObject::LatexFormula { id, .. } => *id,
        }
    }

    /// The axis-aligned bounding box: see [`Shape::bounds`].
    pub fn bounds(&self) -> (b: Bounds)
        requires
            self.wf(),
        ensures
            b == self@.bounds(),
    {
        match self {
            DrawObject::Stroke { points, width, .. } => {
                if points.len() == 0 {
                    return Bounds { min: Point { x: 0, y: 0 }, max: Point { x: 0, y: 0 } };
                }
                let mut min_x: i64 = points[0].pos.x;
                let mut min_y: i64 = points[0].pos.y;
                let mut max_x: i64 = points[0].pos.x;
                let mut max_y: i64 = points[0].pos.y;
                let mut i: usize = 1;
                assert(points@.take(1).len() == 1);
                while i < points.len()
                    invariant
                        1 <= i <= points.len(),
                        points_in_canvas(points@),
                        hull(points@.take(i as int)) == (Bounds {
                            min: Point { x: min_x, y: min_y },
                            max: Point { x: max_x, y: max_y },
                        }),
                        in_canvas(min_x as int),
                        in_canvas(min_y as int),
                        in_canvas(max_x as int),
                        in_canvas(max_y as int),
                    decreases points.len() - i,
                {
                    let p: Point = points[i].pos;
                    proof {
                        let next = points@.take(i + 1);
                        assert(next.drop_last() == points@.take(i as int));
                        assert(next.last() == points@[i as int]);
                    }
                    if p.x < min_x {
                        min_x = p.x;
                    }
                    if p.y < min_y {
                        min_y = p.y;
                    }
                    if p.x > max_x {
                        max_x = p.x;
                    }
                    if p.y > max_y {
                        max_y = p.y;
                    }
                    i += 1;
                }
                assert(points@.take(points.len() as int) == points@);
                let half_width: i64 = *width / 2;
                Bounds {
                    min: Point { x: min_x - half_width, y: min_y - half_width },
                    max: Point { x: max_x + half_width, y: max_y + half_width },
                }
            },
            DrawObject::Line { start, end, width, .. } => {
                let half_width: i64 = *width / 2;
                let min_x: i64 = if end.x < start.x { end.x } else { start.x };
                let min_y: i64 = if end.y < start.y { end.y } else { start.y };
                let max_x: i64 = if end.x > start.x { end.x } else { start.x };
                let max_y: i64 = if end.y > start.y { end.y } else { start.y };
                Bounds {
                    min: Point { x: min_x - half_width, y: min_y - half_width },
                    max: Point { x: max_x + half_width, y: max_y + half_width },
                }
            },
            DrawObject::Circle { center, radius, width, .. } => {
                let r: i64 = *radius + *width / 2;
                Bounds {
                    min: Point { x: center.x - r, y: center.y - r },
                    max: Point { x: center.x + r, y: center.y + r },
                }
            },
            DrawObject::Rectangle { min, max, width, .. } => {
                let half_width: i64 = *width / 2;
                Bounds {
                    min: Point { x: min.x - half_width, y: min.y - half_width },
                    max: Point { x: max.x + half_width, y: max.y + half_width },
                }
            },
            DrawObject::LatexFormula { pos, cached_size, .. } => {
                let size: Size = match cached_size {
                    Some(size) => *size,
                    None => Size { width: PLACEHOLDER_WIDTH, height: PLACEHOLDER_HEIGHT },
                };
                Bounds { min: *pos, max: Point { x: pos.x + size.width, y: pos.y + size.height } }
            },
        }
    }

    /// Whether `point` lies in the bounding box, edges included.
    pub fn contains_point(&self, point: Point) -> (inside: bool)
        requires
            self.wf(),
        ensures
            inside == self@.contains_point(point),
    {
        let b: Bounds = self.bounds();
        point.x >= b.min.x && point.x <= b.max.x && point.y >= b.min.y && point.y <= b.max.y
    }
}

/// Tests whether a point lies in the coordinate range.
pub fn point_in_canvas(p: Point) -> (ok: bool)
    ensures
        ok == p.in_canvas(),
{
    -COORD_MAX <= p.x && p.x <= COORD_MAX && -COORD_MAX <= p.y && p.y <= COORD_MAX
}

/// Tests whether a length is non-negative and fits the coordinate range.
pub fn length_is_valid(v: i64) -> (ok: bool)
    ensures
        ok == valid_length(v),
{
    0 <= v && v <= COORD_MAX
}

/// Copies a scene object by object.
pub fn clone_scene(objects: &Vec<DrawObject>) -> (copy: Vec<DrawObject>)
    ensures
        copy.deep_view() == objects.deep_view(),
{
    let mut copy: Vec<DrawObject> = Vec::new();
    let mut i: usize = 0;
    while i < objects.len()
        invariant
            i <= objects.len(),
            copy.len() == i,
            forall|j: int| 0 <= j < i ==> (#[trigger] copy@[j])@ == objects@[j]@,
        decreases objects.len() - i,
    {
        copy.push(objects[i].clone());
        i += 1;
    }
    assert(copy.deep_view() =~= objects.deep_view());
    copy
}

/// The persisted part of a whiteboard: its objects in drawing order.
#[derive(Debug)]
pub struct WhiteboardState {
    pub objects: Vec<DrawObject>,
}

} // verus!
