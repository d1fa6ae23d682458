//! The scale that a drag of a resize handle asks for.
//!
//! The new extents are measured from the original bounds of the selection.
//! An edge handle changes one axis and leaves the other as it was; a corner
//! handle changes both and then keeps the proportions of the original box.

use crate::fixed::{floor_div, lemma_mul_range};
use crate::models::{Bounds, Point, SelectionHandle};
use crate::transform::{Ratio, Scale};
use vstd::arithmetic::div_mod::*;
use vstd::prelude::*;

verus! {

/// The least extent that a drag can ask for: ten canvas units.
pub const MIN_EXTENT: i64 = 10_000_000;

/// The greatest extent that keeping the proportions can derive: the full
/// span of the coordinate range.
pub const MAX_EXTENT: i64 = 200_000_000_000_000;

/// The greater of `v` and `low`.
pub open spec fn at_least(v: int, low: int) -> int {
    if v < low {
        low
    } else {
        v
    }
}

/// The lesser of `v` and `high`.
pub open spec fn at_most(v: int, high: int) -> int {
    if v > high {
        high
    } else {
        v
    }
}

/// How far `a` and `b` are apart.
pub open spec fn distance(a: int, b: int) -> int {
    if a >= b {
        a - b
    } else {
        b - a
    }
}

/// Whether the handle sits on a corner.
pub open spec fn is_corner(handle: SelectionHandle) -> bool {
    handle == SelectionHandle::TopLeft || handle == SelectionHandle::TopRight || handle
        == SelectionHandle::BottomLeft || handle == SelectionHandle::BottomRight
}

/// The width and height that the drag of `handle` to `pos` asks for, each
/// at least [`MIN_EXTENT`]. An edge handle measures from the opposite edge,
/// a corner handle from the diagonally opposite corner; an axis that the
/// handle does not move keeps its extent.
pub open spec fn dragged_size(handle: SelectionHandle, bounds: Bounds, pos: Point) -> (int, int) {
    let min = bounds.min;
    let max = bounds.max;
    let low = MIN_EXTENT as int;
    match handle {
        SelectionHandle::Right => (at_least(pos.x - min.x, low), bounds.height()),
        SelectionHandle::Left => (at_least(max.x - pos.x, low), bounds.height()),
        SelectionHandle::Bottom => (bounds.width(), at_least(pos.y - min.y, low)),
        SelectionHandle::Top => (bounds.width(), at_least(max.y - pos.y, low)),
        SelectionHandle::TopLeft => (
            at_least(distance(pos.x as int, max.x as int), low),
            at_least(distance(pos.y as int, max.y as int), low),
        ),
        SelectionHandle::TopRight => (
            at_least(distance(pos.x as int, min.x as int), low),
            at_least(distance(pos.y as int, max.y as int), low),
        ),
        SelectionHandle::BottomLeft => (
            at_least(distance(pos.x as int, max.x as int), low),
            at_least(distance(pos.y as int, min.y as int), low),
        ),
        SelectionHandle::BottomRight => (
            at_least(distance(pos.x as int, min.x as int), low),
            at_least(distance(pos.y as int, min.y as int), low),
        ),
        SelectionHandle::Rotate => (bounds.width(), bounds.height()),
    }
}

/// A size brought to the proportions `width : height`. The axis that
/// would give the larger box stays; the other is derived from it, rounded
/// down and at most [`MAX_EXTENT`].
pub open spec fn proportional(size: (int, int), width: int, height: int) -> (int, int) {
    if size.0 * height > size.1 * width {
        (size.0, at_most((size.0 * height) / width, MAX_EXTENT as int))
    } else {
        (at_most((size.1 * width) / height, MAX_EXTENT as int), size.1)
    }
}

/// The width and height of the selection after the drag.
pub open spec fn resized(handle: SelectionHandle, bounds: Bounds, pos: Point) -> (int, int) {
    let size = dragged_size(handle, bounds, pos);
    if is_corner(handle) {
        proportional(size, bounds.width(), bounds.height())
    } else {
        size
    }
}

/// The scale of the drag: new extent over original extent, axis by axis.
/// A box without positive width and height cannot be scaled.
pub open spec fn handle_scale(handle: SelectionHandle, bounds: Bounds, pos: Point) -> Option<
    Scale,
> {
    if bounds.width() <= 0 || bounds.height() <= 0 {
        None
    } else {
        let size = resized(handle, bounds, pos);
        Some(
            Scale {
                x: Ratio { num: size.0 as i64, den: bounds.width() as i64 },
                y: Ratio { num: size.1 as i64, den: bounds.height() as i64 },
            },
        )
    }
}

/// A corner drag keeps the proportions of the original box: the cross
/// products of new and original extents differ by less than one original
/// extent, which is the rounding of the derived side to a whole tick. This
/// holds whenever the derived side did not have to be cut to
/// [`MAX_EXTENT`].
pub proof fn lemma_corner_keeps_proportions(handle: SelectionHandle, bounds: Bounds, pos: Point)
    requires
        is_corner(handle),
        bounds.width() > 0,
        bounds.height() > 0,
        (dragged_size(handle, bounds, pos).0 * bounds.height()) / bounds.width() <= MAX_EXTENT,
        (dragged_size(handle, bounds, pos).1 * bounds.width()) / bounds.height() <= MAX_EXTENT,
    ensures
        -bounds.height() < resized(handle, bounds, pos).0 * bounds.height() - resized(
            handle,
            bounds,
            pos,
        ).1 * bounds.width() < bounds.width(),
{
    let size = dragged_size(handle, bounds, pos);
    let w = bounds.width();
    let h = bounds.height();
    lemma_fundamental_div_mod(size.0 * h, w);
    lemma_mod_bound(size.0 * h, w);
    lemma_fundamental_div_mod(size.1 * w, h);
    lemma_mod_bound(size.1 * w, h);
    let derived_h = (size.0 * h) / w;
    let derived_w = (size.1 * w) / h;
    assert(w * derived_h == derived_h * w) by (nonlinear_arith);
    assert(h * derived_w == derived_w * h) by (nonlinear_arith);
}

fn clamp_low(v: i128) -> (r: i128)
    ensures
        r == at_least(v as int, MIN_EXTENT as int),
{
    if v < MIN_EXTENT as i128 {
        MIN_EXTENT as i128
    } else {
        v
    }
}

fn apart(a: i64, b: i64) -> (d: i128)
    ensures
        d == distance(a as int, b as int),
{
    if a >= b {
        a as i128 - b as i128
    } else {
        b as i128 - a as i128
    }
}

fn derive_side(kept: i128, other_original: i128, kept_original: i128) -> (r: i128)
    requires
        0 <= kept <= 400_000_000_000_000,
        0 < other_original <= 600_000_000_000_000,
        0 < kept_original <= 600_000_000_000_000,
    ensures
        r == at_most((kept * other_original) / (kept_original as int), MAX_EXTENT as int),
{
    proof {
        lemma_mul_range(
            kept as int,
            other_original as int,
            400_000_000_000_000,
            600_000_000_000_000,
        );
    }
    let derived: i128 = floor_div(kept * other_original, kept_original);
    if derived > MAX_EXTENT as i128 {
        MAX_EXTENT as i128
    } else {
        derived
    }
}

/// Computes the scale that the drag of `handle` to `pos` asks for, measured
/// from `bounds`.
pub fn scale_for_handle(handle: SelectionHandle, bounds: Bounds, pos: Point) -> (scale: Option<
    Scale,
>)
    requires
        bounds.bounded(),
        pos.in_canvas(),
    ensures
        scale == handle_scale(handle, bounds, pos),
        scale matches Some(s) ==> s.wf(),
{
    let width: i128 = bounds.max.x as i128 - bounds.min.x as i128;
    let height: i128 = bounds.max.y as i128 - bounds.min.y as i128;
    if width <= 0 || height <= 0 {
        return None;
    }
    let mut new_width: i128 = width;
    let mut new_height: i128 = height;
    let mut corner: bool = false;
    match handle {
        SelectionHandle::Right => {
            new_width = clamp_low(pos.x as i128 - bounds.min.x as i128);
        },
        SelectionHandle::Left => {
            new_width = clamp_low(bounds.max.x as i128 - pos.x as i128);
        },
        SelectionHandle::Bottom => {
            new_height = clamp_low(pos.y as i128 - bounds.min.y as i128);
        },
        SelectionHandle::Top => {
            new_height = clamp_low(bounds.max.y as i128 - pos.y as i128);
        },
        SelectionHandle::TopLeft => {
            new_width = clamp_low(apart(pos.x, bounds.max.x));
            new_height = clamp_low(apart(pos.y, bounds.max.y));
            corner = true;
        },
        SelectionHandle::TopRight => {
            new_width = clamp_low(apart(pos.x, bounds.min.x));
            new_height = clamp_low(apart(pos.y, bounds.max.y));
            corner = true;
        },
        SelectionHandle::BottomLeft => {
            new_width = clamp_low(apart(pos.x, bounds.max.x));
            new_height = clamp_low(apart(pos.y, bounds.min.y));
            corner = true;
        },
        SelectionHandle::BottomRight => {
            new_width = clamp_low(apart(pos.x, bounds.min.x));
            new_height = clamp_low(apart(pos.y, bounds.min.y));
            corner = true;
        },
        SelectionHandle::Rotate => {},
    }
    assert(new_width == dragged_size(handle, bounds, pos).0);
    assert(new_height == dragged_size(handle, bounds, pos).1);
    assert(corner == is_corner(handle));
    if corner {
        proof {
            lemma_mul_range(
                new_width as int,
                height as int,
                400_000_000_000_000,
                600_000_000_000_000,
            );
            lemma_mul_range(
                new_height as int,
                width as int,
                400_000_000_000_000,
                600_000_000_000_000,
            );
        }
        if new_width * height > new_height * width {
            new_height = derive_side(new_width, height, width);
        } else {
            new_width = derive_side(new_height, width, height);
        }
    }
    Some(
        Scale {
            x: Ratio { num: new_width as i64, den: width as i64 },
            y: Ratio { num: new_height as i64, den: height as i64 },
        },
    )
}

} // verus!
