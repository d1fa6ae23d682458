//! Smoothing of freehand strokes.
//!
//! A captured polyline becomes a denser curve: between every two
//! neighbouring points a Catmull-Rom spline is sampled at five evenly
//! spaced parameters, and the first and last captured point frame the
//! result.

use crate::fixed::{clamp_coord, floor_div, lemma_mul_range, saturate};
use crate::models::{points_in_canvas, Point, StrokePoint};
use vstd::prelude::*;

verus! {

/// Samples per segment.
pub const SEGMENTS: usize = 5;

/// The Catmull-Rom spline through `p1` and `p2` with the neighbours `p0`
/// and `p3`, at the parameter `t = k / 5`:
/// `0.5 * (2 p1 + (p2 - p0) t + (2 p0 - 5 p1 + 4 p2 - p3) t^2
///   + (3 p1 - p0 - 3 p2 + p3) t^3)`, saturated.
pub open spec fn spline(p0: int, p1: int, p2: int, p3: int, k: int) -> int {
    clamp_coord(
        (250 * p1 + 25 * (k * (p2 - p0)) + 5 * (k * k * (2 * p0 - 5 * p1 + 4 * p2 - p3)) + k * k * k
            * (3 * p1 - p0 - 3 * p2 + p3)) / 250,
    )
}

/// The `k`-th sample of the segment that starts at the point `i`. The
/// window of four points reuses the first point before the start and the
/// last point after the end.
pub open spec fn sample(points: Seq<StrokePoint>, i: int, k: int) -> StrokePoint {
    let p0 = if i == 0 {
        points[0].pos
    } else {
        points[i - 1].pos
    };
    let p1 = points[i].pos;
    let p2 = points[i + 1].pos;
    let p3 = if i + 2 < points.len() {
        points[i + 2].pos
    } else {
        points[i + 1].pos
    };
    StrokePoint {
        pos: Point {
            x: spline(p0.x as int, p1.x as int, p2.x as int, p3.x as int, k) as i64,
            y: spline(p0.y as int, p1.y as int, p2.y as int, p3.y as int, k) as i64,
        },
    }
}

/// The smoothed stroke. Fewer than three points stay as they are. Else the
/// first point, five samples for each segment in order, and the last point.
pub open spec fn smoothed(points: Seq<StrokePoint>) -> Seq<StrokePoint> {
    if points.len() < 3 {
        points
    } else {
        let n = points.len() as int;
        Seq::new(
            (5 * (n - 1) + 2) as nat,
            |j: int|
                if j == 0 {
                    points[0]
                } else if j == 5 * (n - 1) + 1 {
                    points[n - 1]
                } else {
                    sample(points, (j - 1) / 5, (j - 1) % 5)
                },
        )
    }
}

/// A smoothed stroke of points of the canvas lies in the canvas.
pub proof fn lemma_smoothed_in_canvas(points: Seq<StrokePoint>)
    requires
        points_in_canvas(points),
    ensures
        points_in_canvas(smoothed(points)),
{
    let smooth = smoothed(points);
    assert forall|j: int| 0 <= j < smooth.len() implies (#[trigger] smooth[j]).pos.in_canvas() by {
        if points.len() >= 3 {
            let n = points.len() as int;
            if j == 0 {
                assert(points[0].pos.in_canvas());
            } else if j == 5 * (n - 1) + 1 {
                assert(points[n - 1].pos.in_canvas());
            }
        }
    }
}

fn spline_at(p0: i64, p1: i64, p2: i64, p3: i64, k: usize) -> (v: i64)
    requires
        k < 5,
    ensures
        v == spline(p0 as int, p1 as int, p2 as int, p3 as int, k as int),
{
    let t: i128 = k as i128;
    let a: i128 = p2 as i128 - p0 as i128;
    let b: i128 = 2 * (p0 as i128) - 5 * (p1 as i128) + 4 * (p2 as i128) - p3 as i128;
    let c: i128 = 3 * (p1 as i128) - p0 as i128 - 3 * (p2 as i128) + p3 as i128;
    proof {
        lemma_mul_range(t as int, t as int, 4, 4);
    }
    let t2: i128 = t * t;
    proof {
        lemma_mul_range(t2 as int, t as int, 16, 4);
    }
    let t3: i128 = t2 * t;
    proof {
        lemma_mul_range(t as int, a as int, 4, 0x2_0000_0000_0000_0000);
        lemma_mul_range(t2 as int, b as int, 16, 0x10_0000_0000_0000_0000);
        lemma_mul_range(t3 as int, c as int, 64, 0x10_0000_0000_0000_0000);
    }
    let sum: i128 = 250 * (p1 as i128) + 25 * (t * a) + 5 * (t2 * b) + t3 * c;
    saturate(floor_div(sum, 250))
}

/// Smooths a captured stroke.
pub fn smooth_stroke(points: &[StrokePoint]) -> (smooth: Vec<StrokePoint>)
    ensures
        smooth@ == smoothed(points@),
        points.len() < 3 ==> smooth@ == points@,
        points.len() >= 3 ==> {
            &&& smooth.len() == 5 * (points.len() - 1) + 2
            &&& smooth.len() > points.len()
            &&& smooth@.first() == points@.first()
            &&& smooth@.last() == points@.last()
        },
{
    let n: usize = points.len();
    let mut smooth: Vec<StrokePoint> = Vec::new();
    if n < 3 {
        let mut i: usize = 0;
        while i < n
            invariant
                i <= n,
                n == points.len(),
                smooth@ == points@.take(i as int),
            decreases n - i,
        {
            smooth.push(points[i]);
            assert(points@.take(i + 1) == points@.take(i as int).push(points@[i as int]));
            i += 1;
        }
        assert(points@.take(n as int) == points@);
        return smooth;
    }
    let ghost target = smoothed(points@);
    smooth.push(points[0]);
    assert(smooth@ == target.take(1));
    let mut i: usize = 0;
    while i < n - 1
        invariant
            n == points.len(),
            n >= 3,
            i <= n - 1,
            target == smoothed(points@),
            smooth@ == target.take(1 + 5 * i),
        decreases n - 1 - i,
    {
        let p0: Point = if i == 0 {
            points[0].pos
        } else {
            points[i - 1].pos
        };
        let p1: Point = points[i].pos;
        let p2: Point = points[i + 1].pos;
        let p3: Point = if i + 2 < n {
            points[i + 2].pos
        } else {
            points[i + 1].pos
        };
        let mut k: usize = 0;
        while k < SEGMENTS
            invariant
                n == points.len(),
                n >= 3,
                i < n - 1,
                k <= SEGMENTS,
                target == smoothed(points@),
                p0 == if i == 0 {
                    points@[0].pos
                } else {
                    points@[i - 1].pos
                },
                p1 == points@[i as int].pos,
                p2 == points@[i + 1].pos,
                p3 == if i + 2 < n {
                    points@[i + 2].pos
                } else {
                    points@[i + 1].pos
                },
                smooth@ == target.take(1 + 5 * i + k),
            decreases SEGMENTS - k,
        {
            let x: i64 = spline_at(p0.x, p1.x, p2.x, p3.x, k);
            let y: i64 = spline_at(p0.y, p1.y, p2.y, p3.y, k);
            smooth.push(StrokePoint { pos: Point { x, y } });
            proof {
                let j = 1 + 5 * i + k;
                assert((j - 1) / 5 == i as int);
                assert((j - 1) % 5 == k as int);
                assert(target[j] == sample(points@, i as int, k as int));
                assert(smooth@ == target.take(j + 1));
            }
            k += 1;
        }
        i += 1;
    }
    smooth.push(points[n - 1]);
    assert(smooth@ == target);
    smooth
}

} // verus!
