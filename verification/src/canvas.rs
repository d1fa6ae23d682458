//! The viewport: the mapping between screen and canvas, zoom and pan, the
//! background grid, and hit-testing.

use crate::fixed::{
    clamp_coord, floor_div, in_canvas, lemma_div_shrinks, lemma_mul_range, saturate, UNIT,
};
use crate::models::{DrawObject, Point, Shape};
use crate::selection::scene_wf;
use vstd::arithmetic::div_mod::*;
use vstd::prelude::*;

verus! {

/// The smallest zoom: one tenth.
pub const ZOOM_MIN: i64 = 100_000;

/// The largest zoom: ten.
pub const ZOOM_MAX: i64 = 10_000_000;

/// How much of the zoom one pixel of scrolling changes: a thousandth.
pub const SCROLL_DIVISOR: i64 = 1000;

/// The canvas coordinate under a screen coordinate: `(screen - offset) /
/// zoom`, saturated.
pub open spec fn to_canvas(screen: int, offset: int, zoom: int) -> int {
    clamp_coord(((screen - offset) * UNIT) / zoom)
}

/// The screen coordinate of a canvas coordinate: `canvas * zoom + offset`,
/// saturated.
pub open spec fn to_screen(canvas: int, offset: int, zoom: int) -> int {
    clamp_coord((canvas * zoom) / (UNIT as int) + offset)
}

/// Maps a point of the screen to the canvas.
pub fn screen_to_canvas(screen_pos: Point, canvas_offset: Point, canvas_zoom: i64) -> (canvas_pos:
    Point)
    requires
        canvas_zoom > 0,
    ensures
        canvas_pos.x == to_canvas(
            screen_pos.x as int,
            canvas_offset.x as int,
            canvas_zoom as int,
        ),
        canvas_pos.y == to_canvas(
            screen_pos.y as int,
            canvas_offset.y as int,
            canvas_zoom as int,
        ),
        canvas_pos.in_canvas(),
{
    proof {
        lemma_mul_range(
            screen_pos.x - canvas_offset.x,
            UNIT as int,
            0x1_0000_0000_0000_0000,
            UNIT as int,
        );
        lemma_mul_range(
            screen_pos.y - canvas_offset.y,
            UNIT as int,
            0x1_0000_0000_0000_0000,
            UNIT as int,
        );
    }
    let dx: i128 = (screen_pos.x as i128 - canvas_offset.x as i128) * (UNIT as i128);
    let dy: i128 = (screen_pos.y as i128 - canvas_offset.y as i128) * (UNIT as i128);
    Point {
        x: saturate(floor_div(dx, canvas_zoom as i128)),
        y: saturate(floor_div(dy, canvas_zoom as i128)),
    }
}

/// Maps a point of the canvas to the screen.
pub fn canvas_to_screen(canvas_pos: Point, canvas_offset: Point, canvas_zoom: i64) -> (screen_pos:
    Point)
    ensures
        screen_pos.x == to_screen(
            canvas_pos.x as int,
            canvas_offset.x as int,
            canvas_zoom as int,
        ),
        screen_pos.y == to_screen(
            canvas_pos.y as int,
            canvas_offset.y as int,
            canvas_zoom as int,
        ),
        screen_pos.in_canvas(),
{
    proof {
        lemma_mul_range(
            canvas_pos.x as int,
            canvas_zoom as int,
            0x8000_0000_0000_0000,
            0x8000_0000_0000_0000,
        );
        lemma_mul_range(
            canvas_pos.y as int,
            canvas_zoom as int,
            0x8000_0000_0000_0000,
            0x8000_0000_0000_0000,
        );
        lemma_div_shrinks(
            canvas_pos.x * canvas_zoom,
            UNIT as int,
            0x8000_0000_0000_0000int * 0x8000_0000_0000_0000int,
        );
        lemma_div_shrinks(
            canvas_pos.y * canvas_zoom,
            UNIT as int,
            0x8000_0000_0000_0000int * 0x8000_0000_0000_0000int,
        );
    }
    let sx: i128 = floor_div((canvas_pos.x as i128) * (canvas_zoom as i128), UNIT as i128);
    let sy: i128 = floor_div((canvas_pos.y as i128) * (canvas_zoom as i128), UNIT as i128);
    Point { x: saturate(sx + canvas_offset.x as i128), y: saturate(sy + canvas_offset.y as i128) }
}

/// How far a screen coordinate may come back below itself after a trip to
/// the canvas: the zoom rounded up to whole units, in ticks.
pub open spec fn round_trip_slack(zoom: int) -> int {
    (zoom + UNIT - 1) / (UNIT as int)
}

/// A screen coordinate that is mapped to the canvas and back comes back
/// within the slack of the zoom, never above where it started, as long as
/// its canvas coordinate did not saturate.
pub proof fn lemma_round_trip(screen: int, offset: int, zoom: int)
    requires
        zoom > 0,
        in_canvas(screen),
        in_canvas(((screen - offset) * UNIT) / zoom),
    ensures
        screen - round_trip_slack(zoom) <= to_screen(to_canvas(screen, offset, zoom), offset, zoom)
            <= screen,
{
    let d = screen - offset;
    let c = (d * UNIT) / zoom;
    let w = (c * zoom) / (UNIT as int);
    let unit = UNIT as int;
    lemma_fundamental_div_mod(d * UNIT, zoom);
    lemma_mod_bound(d * UNIT, zoom);
    lemma_fundamental_div_mod(c * zoom, unit);
    lemma_mod_bound(c * zoom, unit);
    lemma_fundamental_div_mod(zoom + UNIT - 1, unit);
    lemma_mod_bound(zoom + UNIT - 1, unit);
    assert(zoom * c == c * zoom) by (nonlinear_arith);
    assert(unit * w == w * unit) by (nonlinear_arith);
    assert(d * UNIT == d * unit);
    let r1 = (d * UNIT) % zoom;
    let r2 = (c * zoom) % unit;
    assert(d * unit == w * unit + r2 + r1);
    assert((d - w) * unit == r1 + r2) by (nonlinear_arith)
        requires
            d * unit == w * unit + r2 + r1,
    ;
    assert(w <= d) by (nonlinear_arith)
        requires
            (d - w) * unit == r1 + r2,
            r1 + r2 >= 0,
            unit > 0,
    ;
    let slack = round_trip_slack(zoom);
    assert(d - w <= slack) by (nonlinear_arith)
        requires
            (d - w) * unit == r1 + r2,
            r1 + r2 <= zoom + unit - 2,
            zoom + unit - 1 == unit * slack + (zoom + unit - 1) % unit,
            0 <= (zoom + unit - 1) % unit < unit,
            unit > 0,
    ;
}

/// How far a canvas coordinate may come back below itself after a trip to
/// the screen: the inverse of the zoom rounded up to whole ticks.
pub open spec fn canvas_round_trip_slack(zoom: int) -> int {
    (UNIT + zoom - 1) / zoom
}

/// A canvas coordinate that is mapped to the screen and back comes back
/// within the slack of the zoom, never above where it started, as long as
/// its screen coordinate did not saturate.
pub proof fn lemma_round_trip_canvas(canvas: int, offset: int, zoom: int)
    requires
        zoom > 0,
        in_canvas(canvas),
        in_canvas((canvas * zoom) / (UNIT as int) + offset),
    ensures
        canvas - canvas_round_trip_slack(zoom) <= to_canvas(
            to_screen(canvas, offset, zoom),
            offset,
            zoom,
        ) <= canvas,
{
    let unit = UNIT as int;
    let q = (canvas * zoom) / unit;
    let back = (q * unit) / zoom;
    let slack = canvas_round_trip_slack(zoom);
    assert((q + offset - offset) * UNIT == q * unit);
    lemma_fundamental_div_mod(canvas * zoom, unit);
    lemma_mod_bound(canvas * zoom, unit);
    lemma_fundamental_div_mod(q * unit, zoom);
    lemma_mod_bound(q * unit, zoom);
    lemma_fundamental_div_mod(unit + zoom - 1, zoom);
    lemma_mod_bound(unit + zoom - 1, zoom);
    let r1 = (canvas * zoom) % unit;
    let r2 = (q * unit) % zoom;
    assert(unit * q == q * unit) by (nonlinear_arith);
    assert(zoom * back == back * zoom) by (nonlinear_arith);
    assert(canvas * zoom == back * zoom + r2 + r1);
    assert((canvas - back) * zoom == r1 + r2) by (nonlinear_arith)
        requires
            canvas * zoom == back * zoom + r2 + r1,
    ;
    assert(back <= canvas) by (nonlinear_arith)
        requires
            (canvas - back) * zoom == r1 + r2,
            r1 + r2 >= 0,
            zoom > 0,
    ;
    assert(canvas - back <= slack) by (nonlinear_arith)
        requires
            (canvas - back) * zoom == r1 + r2,
            r1 + r2 <= unit + zoom - 2,
            unit + zoom - 1 == zoom * slack + (unit + zoom - 1) % zoom,
            0 <= (unit + zoom - 1) % zoom < zoom,
            zoom > 0,
    ;
}

/// Moves the pan offset by `delta`, saturated.
pub fn pan_by(canvas_offset: Point, delta: Point) -> (offset: Point)
    ensures
        offset.x == clamp_coord(canvas_offset.x + delta.x),
        offset.y == clamp_coord(canvas_offset.y + delta.y),
        offset.in_canvas(),
{
    Point {
        x: saturate(canvas_offset.x as i128 + delta.x as i128),
        y: saturate(canvas_offset.y as i128 + delta.y as i128),
    }
}

/// Keeps a zoom between [`ZOOM_MIN`] and [`ZOOM_MAX`].
pub open spec fn clamped_zoom(zoom: int) -> int {
    if zoom < ZOOM_MIN {
        ZOOM_MIN as int
    } else if zoom > ZOOM_MAX {
        ZOOM_MAX as int
    } else {
        zoom
    }
}

/// The zoom after scrolling by `scroll_delta`: the zoom times one plus a
/// thousandth of the scroll distance, kept in the zoom range.
pub open spec fn zoom_after_scroll(zoom: int, scroll_delta: int) -> int {
    clamped_zoom((zoom * (UNIT + scroll_delta / (SCROLL_DIVISOR as int))) / (UNIT as int))
}

/// Changes the zoom by a scroll distance.
pub fn zoom_by_scroll(canvas_zoom: i64, scroll_delta: i64) -> (zoom: i64)
    ensures
        zoom == zoom_after_scroll(canvas_zoom as int, scroll_delta as int),
        ZOOM_MIN <= zoom <= ZOOM_MAX,
{
    let step: i128 = floor_div(scroll_delta as i128, SCROLL_DIVISOR as i128);
    proof {
        lemma_div_shrinks(
            scroll_delta as int,
            SCROLL_DIVISOR as int,
            0x8000_0000_0000_0000,
        );
        lemma_mul_range(
            canvas_zoom as int,
            UNIT + step,
            0x8000_0000_0000_0000,
            0x40_0000_0000_0000,
        );
    }
    let scaled: i128 = floor_div((canvas_zoom as i128) * (UNIT as i128 + step), UNIT as i128);
    if scaled < ZOOM_MIN as i128 {
        ZOOM_MIN
    } else if scaled > ZOOM_MAX as i128 {
        ZOOM_MAX
    } else {
        scaled as i64
    }
}

/// One coordinate of the pan offset after the zoom changed while the
/// pointer hovered at `hover`: `hover + (offset - hover) * new_zoom /
/// old_zoom`, saturated.
pub open spec fn offset_after_zoom(offset: int, hover: int, old_zoom: int, new_zoom: int) -> int {
    clamp_coord(hover + ((offset - hover) * new_zoom) / old_zoom)
}

/// Moves the pan offset so that the canvas point under the pointer stays
/// under it when the zoom changes.
pub fn zoom_around_cursor(canvas_offset: Point, hover_pos: Point, old_zoom: i64, new_zoom: i64) -> (offset:
    Point)
    requires
        old_zoom > 0,
    ensures
        offset.x == offset_after_zoom(
            canvas_offset.x as int,
            hover_pos.x as int,
            old_zoom as int,
            new_zoom as int,
        ),
        offset.y == offset_after_zoom(
            canvas_offset.y as int,
            hover_pos.y as int,
            old_zoom as int,
            new_zoom as int,
        ),
        offset.in_canvas(),
{
    proof {
        lemma_mul_range(
            canvas_offset.x - hover_pos.x,
            new_zoom as int,
            0xffff_ffff_ffff_ffff,
            0x8000_0000_0000_0000,
        );
        lemma_mul_range(
            canvas_offset.y - hover_pos.y,
            new_zoom as int,
            0xffff_ffff_ffff_ffff,
            0x8000_0000_0000_0000,
        );
        lemma_div_shrinks(
            (canvas_offset.x - hover_pos.x) * new_zoom,
            old_zoom as int,
            0xffff_ffff_ffff_ffffint * 0x8000_0000_0000_0000int,
        );
        lemma_div_shrinks(
            (canvas_offset.y - hover_pos.y) * new_zoom,
            old_zoom as int,
            0xffff_ffff_ffff_ffffint * 0x8000_0000_0000_0000int,
        );
    }
    let dx: i128 = floor_div(
        (canvas_offset.x as i128 - hover_pos.x as i128) * (new_zoom as i128),
        old_zoom as i128,
    );
    let dy: i128 = floor_div(
        (canvas_offset.y as i128 - hover_pos.y as i128) * (new_zoom as i128),
        old_zoom as i128,
    );
    Point { x: saturate(hover_pos.x as i128 + dx), y: saturate(hover_pos.y as i128 + dy) }
}

/// A zoom around the pointer keeps the canvas point under the pointer in
/// place: it comes out at most the slack of the new zoom above where it was
/// and never below, as long as nothing saturates. `hover` is the pointer
/// and `offset` the pan offset before the zoom, on one axis.
pub proof fn lemma_zoom_keeps_cursor(offset: int, hover: int, old_zoom: int, new_zoom: int)
    requires
        old_zoom > 0,
        new_zoom > 0,
        in_canvas(((hover - offset) * UNIT) / old_zoom),
        in_canvas(hover + ((offset - hover) * new_zoom) / old_zoom),
        in_canvas(
            ((hover - offset_after_zoom(offset, hover, old_zoom, new_zoom)) * UNIT) / new_zoom,
        ),
    ensures
        to_canvas(hover, offset, old_zoom) <= to_canvas(
            hover,
            offset_after_zoom(offset, hover, old_zoom, new_zoom),
            new_zoom,
        ) <= to_canvas(hover, offset, old_zoom) + canvas_round_trip_slack(new_zoom),
{
    let unit = UNIT as int;
    let d = hover - offset;
    let before = (d * unit) / old_zoom;
    let shift = ((offset - hover) * new_zoom) / old_zoom;
    let after = ((-shift) * unit) / new_zoom;
    let slack = canvas_round_trip_slack(new_zoom);
    assert(hover - (hover + shift) == -shift);
    lemma_fundamental_div_mod(d * unit, old_zoom);
    lemma_mod_bound(d * unit, old_zoom);
    lemma_fundamental_div_mod((offset - hover) * new_zoom, old_zoom);
    lemma_mod_bound((offset - hover) * new_zoom, old_zoom);
    lemma_fundamental_div_mod((-shift) * unit, new_zoom);
    lemma_mod_bound((-shift) * unit, new_zoom);
    lemma_fundamental_div_mod(unit + new_zoom - 1, new_zoom);
    lemma_mod_bound(unit + new_zoom - 1, new_zoom);
    let r0 = (d * unit) % old_zoom;
    let r1 = ((offset - hover) * new_zoom) % old_zoom;
    let r2 = ((-shift) * unit) % new_zoom;
    // d * unit == old_zoom * before + r0
    // -d * new_zoom == old_zoom * shift + r1
    // -shift * unit == new_zoom * after + r2
    assert(old_zoom * new_zoom * (after - before) == new_zoom * r0 + unit * r1 - old_zoom * r2) by {
        let z = old_zoom;
        let zn = new_zoom;
        assert(z * (zn * after + r2) == z * ((-shift) * unit));
        assert(z * (zn * after + r2) == z * zn * after + z * r2) by (nonlinear_arith);
        assert(z * ((-shift) * unit) == (-(z * shift)) * unit) by (nonlinear_arith);
        assert((offset - hover) * zn == -(d * zn)) by (nonlinear_arith)
            requires
                d == hover - offset,
        ;
        assert(-(z * shift) == d * zn + r1);
        assert((d * zn + r1) * unit == zn * (d * unit) + unit * r1) by (nonlinear_arith);
        assert(zn * (d * unit) == zn * (z * before + r0));
        assert(zn * (z * before + r0) == z * zn * before + zn * r0) by (nonlinear_arith);
        assert(z * zn * (after - before) == z * zn * after - z * zn * before)
            by (nonlinear_arith);
    }
    assert(after >= before) by (nonlinear_arith)
        requires
            old_zoom * new_zoom * (after - before) == new_zoom * r0 + unit * r1 - old_zoom * r2,
            r0 >= 0,
            r1 >= 0,
            r2 <= new_zoom - 1,
            unit > 0,
            old_zoom > 0,
            new_zoom > 0,
    {
        assert(new_zoom * r0 >= 0);
        assert(unit * r1 >= 0);
        assert(old_zoom * r2 <= old_zoom * (new_zoom - 1));
        assert(old_zoom * new_zoom * (after - before) > -(old_zoom * new_zoom));
        if after - before <= -1 {
            assert(old_zoom * new_zoom * (after - before) <= -(old_zoom * new_zoom));
        }
    }
    assert(after - before <= slack) by (nonlinear_arith)
        requires
            old_zoom * new_zoom * (after - before) == new_zoom * r0 + unit * r1 - old_zoom * r2,
            r0 <= old_zoom - 1,
            r1 <= old_zoom - 1,
            r1 >= 0,
            r0 >= 0,
            r2 >= 0,
            unit + new_zoom - 1 == new_zoom * slack + (unit + new_zoom - 1) % new_zoom,
            0 <= (unit + new_zoom - 1) % new_zoom < new_zoom,
            unit > 0,
            old_zoom > 0,
            new_zoom > 0,
    {
        assert(new_zoom * r0 <= new_zoom * (old_zoom - 1));
        assert(unit * r1 <= unit * (old_zoom - 1));
        assert(old_zoom * r2 >= 0);
        // old_zoom * new_zoom * (after - before) <= (new_zoom + unit) * (old_zoom - 1)
        assert(old_zoom * new_zoom * (after - before) < old_zoom * (new_zoom + unit));
        assert(new_zoom * (slack + 1) > unit + new_zoom - 1);
        if after - before >= slack + 1 {
            assert(old_zoom * new_zoom * (after - before) >= old_zoom * (new_zoom * (slack + 1)));
            assert(old_zoom * (new_zoom * (slack + 1)) >= old_zoom * (unit + new_zoom));
        }
    }
}

/// The distance between the dots of the background grid: fifty canvas
/// units.
pub const GRID_SPACING: i64 = 50_000_000;

/// The last grid line at or below `v`.
pub open spec fn grid_floor(v: int) -> int {
    (v / (GRID_SPACING as int)) * GRID_SPACING
}

/// The first grid line at or above `v`.
pub open spec fn grid_ceil(v: int) -> int {
    -(((-v) / (GRID_SPACING as int)) * GRID_SPACING)
}

/// The grid lines that frame the span from `min` to `max` on one axis: the
/// last line at or below `min` and the first line at or above `max`.
pub fn grid_span(min: i64, max: i64) -> (span: (i64, i64))
    requires
        in_canvas(min as int),
        in_canvas(max as int),
    ensures
        span.0 == grid_floor(min as int),
        span.1 == grid_ceil(max as int),
        span.0 <= min < span.0 + GRID_SPACING,
        span.1 - GRID_SPACING < max <= span.1,
{
    let spacing: i128 = GRID_SPACING as i128;
    let below: i128 = floor_div(min as i128, spacing);
    let above: i128 = floor_div(-(max as i128), spacing);
    proof {
        lemma_fundamental_div_mod(min as int, spacing as int);
        lemma_mod_bound(min as int, spacing as int);
        lemma_fundamental_div_mod(-(max as int), spacing as int);
        lemma_mod_bound(-(max as int), spacing as int);
    }
    ((below * spacing) as i64, (-(above * spacing)) as i64)
}

/// The index of the topmost object below `end` in drawing order whose
/// bounding box holds `p`.
pub open spec fn topmost_below(scene: Seq<Shape>, p: Point, end: int) -> Option<int>
    decreases end,
{
    if end <= 0 {
        None
    } else if end <= scene.len() && scene[end - 1].contains_point(p) {
        Some(end - 1)
    } else {
        topmost_below(scene, p, end - 1)
    }
}

/// The identifier of the topmost object whose bounding box holds `p`: the
/// last such object in drawing order.
pub open spec fn hit_test(scene: Seq<Shape>, p: Point) -> Option<u128> {
    match topmost_below(scene, p, scene.len() as int) {
        Some(i) => Some(scene[i].id()),
        None => None,
    }
}

/// What [`topmost_below`] finds holds the point and no later object does;
/// it finds nothing only where no object holds the point.
pub proof fn lemma_topmost(scene: Seq<Shape>, p: Point, end: int)
    requires
        0 <= end <= scene.len(),
    ensures
        match topmost_below(scene, p, end) {
            Some(i) => {
                &&& 0 <= i < end
                &&& scene[i].contains_point(p)
                &&& forall|j: int| i < j < end ==> !(#[trigger] scene[j]).contains_point(p)
            },
            None => forall|j: int| 0 <= j < end ==> !(#[trigger] scene[j]).contains_point(p),
        },
    decreases end,
{
    if end > 0 && !scene[end - 1].contains_point(p) {
        lemma_topmost(scene, p, end - 1);
    }
}

/// Finds the topmost object under a point of the canvas.
pub fn find_object_at(objects: &[DrawObject], canvas_pos: Point) -> (hit: Option<u128>)
    requires
        scene_wf(objects.deep_view()),
    ensures
        hit == hit_test(objects.deep_view(), canvas_pos),
{
    let ghost scene = objects.deep_view();
    let mut end: usize = objects.len();
    while end > 0
        invariant
            end <= objects.len(),
            scene == objects.deep_view(),
            scene_wf(scene),
            topmost_below(scene, canvas_pos, scene.len() as int) == topmost_below(
                scene,
                canvas_pos,
                end as int,
            ),
        decreases end,
    {
        assert(scene[end - 1] == objects@[end - 1]@);
        if objects[end - 1].contains_point(canvas_pos) {
            return Some(objects[end - 1].id());
        }
        end -= 1;
    }
    None
}

} // verus!
