//! Resolving identifiers, the bounds of a selection, its handles, and the
//! transform of every selected object.

use crate::fixed::{floor_div, UNIT};
use crate::models::{lemma_bounds_bounded, Bounds, DrawObject, Point, SelectionHandle, Shape};
use crate::transform::{
    lemma_move_back_shape, move_by, shape_stays, transform_object, Rotation, Scale, Transform,
};
use vstd::prelude::*;

verus! {

/// Every object of the scene is well-formed.
pub open spec fn scene_wf(scene: Seq<Shape>) -> bool {
    forall|i: int| 0 <= i < scene.len() ==> (#[trigger] scene[i]).wf()
}

/// Tests whether every object of the scene is well-formed.
pub fn scene_is_wf(objects: &Vec<DrawObject>) -> (ok: bool)
    ensures
        ok == scene_wf(objects.deep_view()),
{
    let ghost scene = objects.deep_view();
    let mut i: usize = 0;
    while i < objects.len()
        invariant
            i <= objects.len(),
            scene == objects.deep_view(),
            forall|j: int| 0 <= j < i ==> (#[trigger] scene[j]).wf(),
        decreases objects.len() - i,
    {
        assert(scene[i as int] == objects@[i as int]@);
        if !objects[i].is_wf() {
            return false;
        }
        i += 1;
    }
    true
}

/// The index of the first object at or after `start` whose identifier is
/// `id`.
pub open spec fn find_from(scene: Seq<Shape>, id: u128, start: int) -> Option<int>
    decreases scene.len() - start,
{
    if start >= scene.len() {
        None
    } else if start >= 0 && scene[start].id() == id {
        Some(start)
    } else {
        find_from(scene, id, start + 1)
    }
}

/// The index of the first object whose identifier is `id`: how an
/// identifier resolves to an object. `None` means that the object is gone.
pub open spec fn find_id(scene: Seq<Shape>, id: u128) -> Option<int> {
    find_from(scene, id, 0)
}

/// What [`find_id`] finds is the first object with that identifier, and it
/// finds nothing only where no object has it.
pub proof fn lemma_find_id(scene: Seq<Shape>, id: u128)
    ensures
        match find_id(scene, id) {
            Some(i) => {
                &&& 0 <= i < scene.len()
                &&& scene[i].id() == id
                &&& forall|j: int| 0 <= j < i ==> (#[trigger] scene[j]).id() != id
            },
            None => forall|j: int| 0 <= j < scene.len() ==> (#[trigger] scene[j]).id() != id,
        },
{
    lemma_find_from(scene, id, 0);
}

proof fn lemma_find_from(scene: Seq<Shape>, id: u128, start: int)
    requires
        0 <= start,
    ensures
        match find_from(scene, id, start) {
            Some(i) => {
                &&& start <= i < scene.len()
                &&& scene[i].id() == id
                &&& forall|j: int| start <= j < i ==> (#[trigger] scene[j]).id() != id
            },
            None => forall|j: int| start <= j < scene.len() ==> (#[trigger] scene[j]).id() != id,
        },
    decreases scene.len() - start,
{
    if start < scene.len() && scene[start].id() != id {
        lemma_find_from(scene, id, start + 1);
    }
}

/// The scene after the object that `id` resolves to, if any, went through
/// the transform.
pub open spec fn transform_one(scene: Seq<Shape>, id: u128, t: Transform) -> Seq<Shape> {
    match find_id(scene, id) {
        Some(i) => scene.update(i, t.shape(scene[i])),
        None => scene,
    }
}

/// The scene after the objects that `ids` resolve to went through the
/// transform, one identifier after the other. Identifiers that do not
/// resolve are passed over.
pub open spec fn transform_selected(scene: Seq<Shape>, ids: Seq<u128>, t: Transform) -> Seq<
    Shape,
>
    decreases ids.len(),
{
    if ids.len() == 0 {
        scene
    } else {
        transform_one(transform_selected(scene, ids.drop_last(), t), ids.last(), t)
    }
}

/// Looks an identifier up in the scene.
pub fn find_object(objects: &[DrawObject], id: u128) -> (found: Option<usize>)
    ensures
        match found {
            Some(i) => find_id(objects.deep_view(), id) == Some(i as int) && i < objects.len(),
            None => find_id(objects.deep_view(), id).is_none(),
        },
{
    let ghost scene = objects.deep_view();
    let mut i: usize = 0;
    while i < objects.len()
        invariant
            i <= objects.len(),
            scene == objects.deep_view(),
            find_from(scene, id, 0) == find_from(scene, id, i as int),
        decreases objects.len() - i,
    {
        if objects[i].id() == id {
            return Some(i);
        }
        i += 1;
    }
    None
}

/// Applies a transform to every selected object: for each identifier in
/// turn, to the first object of the scene that carries it. Identifiers that
/// resolve to no object are passed over; the order of the scene never
/// changes.
pub fn transform_objects(
    objects: &mut [DrawObject],
    selected_objects: &[u128],
    scale: Scale,
    rotation: Rotation,
    translation: Point,
    center: Point,
)
    requires
        scene_wf(old(objects).deep_view()),
        (Transform { scale, rotation, translation, center }).wf(),
    ensures
        final(objects).deep_view() == transform_selected(
            old(objects).deep_view(),
            selected_objects@,
            Transform { scale, rotation, translation, center },
        ),
        scene_wf(final(objects).deep_view()),
{
    let ghost t = Transform { scale, rotation, translation, center };
    let ghost before = objects.deep_view();
    let mut k: usize = 0;
    assert(selected_objects@.take(0).len() == 0);
    while k < selected_objects.len()
        invariant
            k <= selected_objects.len(),
            t == (Transform { scale, rotation, translation, center }),
            t.wf(),
            scene_wf(objects.deep_view()),
            objects.deep_view() == transform_selected(before, selected_objects@.take(k as int), t),
        decreases selected_objects.len() - k,
    {
        let id: u128 = selected_objects[k];
        let ghost scene = objects.deep_view();
        proof {
            let next = selected_objects@.take(k + 1);
            assert(next.drop_last() == selected_objects@.take(k as int));
            assert(next.last() == id);
        }
        match find_object(objects, id) {
            Some(i) => {
                assert(scene[i as int] == objects@[i as int]@);
                let moved: DrawObject = transform_object(
                    &objects[i],
                    scale,
                    rotation,
                    translation,
                    center,
                );
                objects[i] = moved;
                assert(objects.deep_view() == scene.update(i as int, t.shape(scene[i as int])));
            },
            None => {},
        }
        k += 1;
    }
    assert(selected_objects@.take(selected_objects.len() as int) == selected_objects@);
}

/// Whether the object at the index `i` is one that `ids` resolve to.
pub open spec fn is_selected(scene: Seq<Shape>, ids: Seq<u128>, i: int) -> bool {
    ids.contains(scene[i].id()) && find_id(scene, scene[i].id()) == Some(i)
}

/// The same identifiers at the same places resolve alike.
pub proof fn lemma_find_same_ids(a: Seq<Shape>, b: Seq<Shape>, id: u128, start: int)
    requires
        a.len() == b.len(),
        forall|i: int| 0 <= i < a.len() ==> (#[trigger] a[i]).id() == b[i].id(),
        0 <= start,
    ensures
        find_from(a, id, start) == find_from(b, id, start),
    decreases a.len() - start,
{
    if start < a.len() {
        assert(a[start].id() == b[start].id());
        if a[start].id() != id {
            lemma_find_same_ids(a, b, id, start + 1);
        }
    }
}

/// With no identifier named twice, a transform of the selection changes
/// exactly the objects that the identifiers resolve to, each of them once.
pub proof fn lemma_transform_selected(scene: Seq<Shape>, ids: Seq<u128>, t: Transform)
    requires
        ids.no_duplicates(),
    ensures
        transform_selected(scene, ids, t).len() == scene.len(),
        forall|i: int|
            0 <= i < scene.len() ==> #[trigger] transform_selected(scene, ids, t)[i] == if is_selected(
                scene,
                ids,
                i,
            ) {
                t.shape(scene[i])
            } else {
                scene[i]
            },
    decreases ids.len(),
{
    if ids.len() > 0 {
        let rest = ids.drop_last();
        let id = ids.last();
        let mid = transform_selected(scene, rest, t);
        assert(rest.no_duplicates());
        lemma_transform_selected(scene, rest, t);
        assert forall|i: int| 0 <= i < scene.len() implies (#[trigger] mid[i]).id()
            == scene[i].id() by {}
        lemma_find_same_ids(mid, scene, id, 0);
        lemma_find_id(scene, id);
        assert(!rest.contains(id)) by {
            if rest.contains(id) {
                let k = choose|k: int| 0 <= k < rest.len() && rest[k] == id;
                assert(ids[k] == ids[ids.len() - 1]);
            }
        }
        assert forall|i: int| 0 <= i < scene.len() implies #[trigger] transform_selected(
            scene,
            ids,
            t,
        )[i] == if is_selected(scene, ids, i) {
            t.shape(scene[i])
        } else {
            scene[i]
        } by {
            let sid = scene[i].id();
            assert(ids.contains(sid) <==> (rest.contains(sid) || sid == id)) by {
                if rest.contains(sid) {
                    let k = choose|k: int| 0 <= k < rest.len() && rest[k] == sid;
                    assert(ids[k] == sid);
                }
                if sid == id {
                    assert(ids[ids.len() - 1] == id);
                }
                if ids.contains(sid) && sid != id {
                    let k = choose|k: int| 0 <= k < ids.len() && ids[k] == sid;
                    assert(rest[k] == sid);
                }
            }
        }
    }
}

/// Two scenes have the same identifiers at the same places.
pub open spec fn same_ids(a: Seq<Shape>, b: Seq<Shape>) -> bool {
    a.len() == b.len() && forall|i: int| 0 <= i < a.len() ==> (#[trigger] a[i]).id() == b[i].id()
}

/// Whether an object is selected depends on the identifiers of the scene
/// alone.
pub proof fn lemma_is_selected_same_ids(a: Seq<Shape>, b: Seq<Shape>, ids: Seq<u128>, i: int)
    requires
        same_ids(a, b),
        0 <= i < a.len(),
    ensures
        is_selected(a, ids, i) == is_selected(b, ids, i),
{
    assert(a[i].id() == b[i].id());
    lemma_find_same_ids(a, b, a[i].id(), 0);
}

/// A transform of the selection keeps the length of the scene and every
/// identifier, and leaves alone what is not selected.
pub proof fn lemma_transform_selected_frame(scene: Seq<Shape>, ids: Seq<u128>, t: Transform)
    ensures
        same_ids(transform_selected(scene, ids, t), scene),
        forall|i: int|
            0 <= i < scene.len() && !is_selected(scene, ids, i) ==> #[trigger] transform_selected(
                scene,
                ids,
                t,
            )[i] == scene[i],
    decreases ids.len(),
{
    if ids.len() > 0 {
        let rest = ids.drop_last();
        let id = ids.last();
        let mid = transform_selected(scene, rest, t);
        lemma_transform_selected_frame(scene, rest, t);
        lemma_find_same_ids(mid, scene, id, 0);
        lemma_find_id(scene, id);
        let out = transform_selected(scene, ids, t);
        assert forall|i: int| 0 <= i < scene.len() implies (#[trigger] out[i]).id()
            == scene[i].id() by {
            assert(mid[i].id() == scene[i].id());
        }
        assert forall|i: int| 0 <= i < scene.len() && !is_selected(scene, ids, i) implies #[trigger] out[i]
            == scene[i] by {
            let sid = scene[i].id();
            if rest.contains(sid) {
                let k = choose|k: int| 0 <= k < rest.len() && rest[k] == sid;
                assert(ids[k] == sid);
            }
            if sid == id {
                assert(ids[ids.len() - 1] == sid);
            }
            assert(!is_selected(scene, rest, i));
        }
    } else {
        assert(same_ids(scene, scene));
    }
}

/// A move of a selection is reversible: moving it by `delta` and then by
/// the opposite of `delta` restores every object, whatever the two centers,
/// as long as no identifier is named twice and the first move keeps the
/// selected objects in the coordinate range.
pub proof fn lemma_move_back(
    scene: Seq<Shape>,
    ids: Seq<u128>,
    delta: Point,
    back: Point,
    c1: Point,
    c2: Point,
)
    requires
        scene_wf(scene),
        ids.no_duplicates(),
        back.x == -delta.x,
        back.y == -delta.y,
        forall|i: int|
            0 <= i < scene.len() && is_selected(scene, ids, i) ==> shape_stays(
                #[trigger] scene[i],
                delta,
            ),
    ensures
        transform_selected(
            transform_selected(scene, ids, move_by(delta, c1)),
            ids,
            move_by(back, c2),
        ) == scene,
{
    let t1 = move_by(delta, c1);
    let t2 = move_by(back, c2);
    let moved = transform_selected(scene, ids, t1);
    let restored = transform_selected(moved, ids, t2);
    lemma_transform_selected(scene, ids, t1);
    lemma_transform_selected(moved, ids, t2);
    assert forall|i: int| 0 <= i < scene.len() implies (#[trigger] moved[i]).id()
        == scene[i].id() by {}
    assert forall|i: int| 0 <= i < scene.len() implies #[trigger] restored[i] == scene[i] by {
        lemma_find_same_ids(moved, scene, scene[i].id(), 0);
        assert(moved[i].id() == scene[i].id());
        if is_selected(scene, ids, i) {
            assert(scene[i].wf());
            lemma_move_back_shape(scene[i], delta, back, c1, c2);
        }
    }
    assert(restored =~= scene);
}

/// The box that a union starts from: it holds nothing, and its union with
/// any box is that box.
pub open spec fn empty_bounds() -> Bounds {
    Bounds {
        min: Point { x: i64::MAX, y: i64::MAX },
        max: Point { x: i64::MIN, y: i64::MIN },
    }
}

/// The union of the bounding boxes of the objects that `ids` resolve to.
pub open spec fn union_bounds(scene: Seq<Shape>, ids: Seq<u128>) -> Bounds
    decreases ids.len(),
{
    if ids.len() == 0 {
        empty_bounds()
    } else {
        let rest = union_bounds(scene, ids.drop_last());
        match find_id(scene, ids.last()) {
            Some(i) => rest.union(scene[i].bounds()),
            None => rest,
        }
    }
}

/// The aggregate bounds of a selection: none for an empty selection, which
/// is not the same as a box of size zero.
pub open spec fn selection_bounds(scene: Seq<Shape>, ids: Seq<u128>) -> Option<Bounds> {
    if ids.len() == 0 {
        None
    } else {
        Some(union_bounds(scene, ids))
    }
}

/// Computes the aggregate bounds of a selection.
pub fn get_selection_bounds(objects: &[DrawObject], selected_objects: &[u128]) -> (bounds:
    Option<Bounds>)
    requires
        scene_wf(objects.deep_view()),
    ensures
        bounds == selection_bounds(objects.deep_view(), selected_objects@),
{
    if selected_objects.len() == 0 {
        return None;
    }
    let ghost scene = objects.deep_view();
    let mut min_x: i64 = i64::MAX;
    let mut min_y: i64 = i64::MAX;
    let mut max_x: i64 = i64::MIN;
    let mut max_y: i64 = i64::MIN;
    let mut k: usize = 0;
    assert(selected_objects@.take(0).len() == 0);
    while k < selected_objects.len()
        invariant
            k <= selected_objects.len(),
            scene == objects.deep_view(),
            scene_wf(scene),
            union_bounds(scene, selected_objects@.take(k as int)) == (Bounds {
                min: Point { x: min_x, y: min_y },
                max: Point { x: max_x, y: max_y },
            }),
        decreases selected_objects.len() - k,
    {
        let id: u128 = selected_objects[k];
        proof {
            let next = selected_objects@.take(k + 1);
            assert(next.drop_last() == selected_objects@.take(k as int));
            assert(next.last() == id);
        }
        match find_object(objects, id) {
            Some(i) => {
                assert(scene[i as int] == objects@[i as int]@);
                let b: Bounds = objects[i].bounds();
                if b.min.x < min_x {
                    min_x = b.min.x;
                }
                if b.min.y < min_y {
                    min_y = b.min.y;
                }
                if b.max.x > max_x {
                    max_x = b.max.x;
                }
                if b.max.y > max_y {
                    max_y = b.max.y;
                }
            },
            None => {},
        }
        k += 1;
    }
    assert(selected_objects@.take(selected_objects.len() as int) == selected_objects@);
    Some(Bounds { min: Point { x: min_x, y: min_y }, max: Point { x: max_x, y: max_y } })
}

/// Adding an identifier to a selection never shrinks its aggregate bounds:
/// the new box encloses the old one.
pub proof fn lemma_selection_bounds_grow(scene: Seq<Shape>, ids: Seq<u128>, id: u128)
    ensures
        union_bounds(scene, ids.push(id)).encloses(union_bounds(scene, ids)),
{
    assert(ids.push(id).drop_last() == ids);
}

/// The aggregate bounds of objects of a well-formed scene are the empty
/// box, where no identifier resolves, or else
/// [`bounded`](Bounds::bounded).
pub proof fn lemma_union_bounds_bounded(scene: Seq<Shape>, ids: Seq<u128>)
    requires
        scene_wf(scene),
    ensures
        union_bounds(scene, ids) == empty_bounds() || union_bounds(scene, ids).bounded(),
    decreases ids.len(),
{
    if ids.len() > 0 {
        lemma_union_bounds_bounded(scene, ids.drop_last());
        lemma_find_id(scene, ids.last());
        if let Some(i) = find_id(scene, ids.last()) {
            lemma_bounds_bounded(scene[i]);
        }
    }
}

/// The radius of a handle's hotspot on screen, in ticks: ten pixels.
pub const HANDLE_RADIUS: i64 = 10_000_000;

/// The distance of the rotate handle above the top edge on screen, in
/// ticks: thirty pixels.
pub const ROTATE_OFFSET: i64 = 30_000_000;

/// A length on screen, taken to the canvas at the given zoom.
pub open spec fn on_canvas(screen_length: int, zoom: int) -> int {
    (screen_length * UNIT) / zoom
}

/// `a` and `b` are less than `reach` apart.
pub open spec fn near(a: int, b: int, reach: int) -> bool {
    -reach < a - b < reach
}

/// The midpoint of `a` and `b`, rounded down.
pub open spec fn midpoint(a: int, b: int) -> int {
    (a + b) / 2
}

/// The handle of the box `bounds` under the point `pos`: the corners first,
/// then the middles of the edges, then the rotate handle, which floats
/// above the middle of the top edge. A handle is under the point when the
/// point is near its place on both axes.
pub open spec fn handle_at(pos: Point, bounds: Bounds, zoom: int) -> Option<SelectionHandle> {
    let reach = on_canvas(HANDLE_RADIUS as int, zoom);
    let mid_x = midpoint(bounds.min.x as int, bounds.max.x as int);
    let mid_y = midpoint(bounds.min.y as int, bounds.max.y as int);
    let rotate_y = bounds.min.y - on_canvas(ROTATE_OFFSET as int, zoom);
    let left = near(pos.x as int, bounds.min.x as int, reach);
    let right = near(pos.x as int, bounds.max.x as int, reach);
    let center = near(pos.x as int, mid_x, reach);
    let top = near(pos.y as int, bounds.min.y as int, reach);
    let bottom = near(pos.y as int, bounds.max.y as int, reach);
    let middle = near(pos.y as int, mid_y, reach);
    if left && top {
        Some(SelectionHandle::TopLeft)
    } else if right && top {
        Some(SelectionHandle::TopRight)
    } else if left && bottom {
        Some(SelectionHandle::BottomLeft)
    } else if right && bottom {
        Some(SelectionHandle::BottomRight)
    } else if center && top {
        Some(SelectionHandle::Top)
    } else if center && bottom {
        Some(SelectionHandle::Bottom)
    } else if left && middle {
        Some(SelectionHandle::Left)
    } else if right && middle {
        Some(SelectionHandle::Right)
    } else if center && near(pos.y as int, rotate_y, reach) {
        Some(SelectionHandle::Rotate)
    } else {
        None
    }
}

fn is_near(a: i128, b: i128, reach: i128) -> (r: bool)
    requires
        -0x1_0000_0000_0000_0000 <= a <= 0x1_0000_0000_0000_0000,
        -0x1_0000_0000_0000_0000_0000 <= b <= 0x1_0000_0000_0000_0000_0000,
        0 <= reach <= 0x1_0000_0000_0000_0000,
    ensures
        r == near(a as int, b as int, reach as int),
{
    let d: i128 = a - b;
    -reach < d && d < reach
}

/// Finds the handle of a selection's bounding box under a point of the
/// canvas.
pub fn get_handle_at_pos(canvas_pos: Point, bounds: Bounds, canvas_zoom: i64) -> (handle: Option<
    SelectionHandle,
>)
    requires
        canvas_zoom > 0,
    ensures
        handle == handle_at(canvas_pos, bounds, canvas_zoom as int),
{
    let reach: i128 = floor_div((HANDLE_RADIUS as i128) * (UNIT as i128), canvas_zoom as i128);
    let lift: i128 = floor_div((ROTATE_OFFSET as i128) * (UNIT as i128), canvas_zoom as i128);
    proof {
        crate::fixed::lemma_div_shrinks(
            HANDLE_RADIUS * UNIT,
            canvas_zoom as int,
            HANDLE_RADIUS * UNIT,
        );
        crate::fixed::lemma_div_shrinks(
            ROTATE_OFFSET * UNIT,
            canvas_zoom as int,
            ROTATE_OFFSET * UNIT,
        );
        vstd::arithmetic::div_mod::lemma_div_pos_is_pos(HANDLE_RADIUS * UNIT, canvas_zoom as int);
    }
    let mid_x: i128 = floor_div(bounds.min.x as i128 + bounds.max.x as i128, 2);
    let mid_y: i128 = floor_div(bounds.min.y as i128 + bounds.max.y as i128, 2);
    let rotate_y: i128 = bounds.min.y as i128 - lift;
    let x: i128 = canvas_pos.x as i128;
    let y: i128 = canvas_pos.y as i128;
    let left: bool = is_near(x, bounds.min.x as i128, reach);
    let right: bool = is_near(x, bounds.max.x as i128, reach);
    let center: bool = is_near(x, mid_x, reach);
    let top: bool = is_near(y, bounds.min.y as i128, reach);
    let bottom: bool = is_near(y, bounds.max.y as i128, reach);
    let middle: bool = is_near(y, mid_y, reach);
    if left && top {
        Some(SelectionHandle::TopLeft)
    } else if right && top {
        Some(SelectionHandle::TopRight)
    } else if left && bottom {
        Some(SelectionHandle::BottomLeft)
    } else if right && bottom {
        Some(SelectionHandle::BottomRight)
    } else if center && top {
        Some(SelectionHandle::Top)
    } else if center && bottom {
        Some(SelectionHandle::Bottom)
    } else if left && middle {
        Some(SelectionHandle::Left)
    } else if right && middle {
        Some(SelectionHandle::Right)
    } else if center && is_near(y, rotate_y, reach) {
        Some(SelectionHandle::Rotate)
    } else {
        None
    }
}

/// The marquee rectangle that a drag from `start` to `end` spans.
pub open spec fn marquee(start: Point, end: Point) -> Bounds {
    Bounds::at(start).including(end)
}

/// The identifiers of the objects whose bounding box lies fully in `area`,
/// in drawing order.
pub open spec fn enclosed_ids(scene: Seq<Shape>, area: Bounds) -> Seq<u128>
    decreases scene.len(),
{
    if scene.len() == 0 {
        Seq::empty()
    } else {
        let rest = enclosed_ids(scene.drop_last(), area);
        if area.encloses(scene.last().bounds()) {
            rest.push(scene.last().id())
        } else {
            rest
        }
    }
}

/// An object is selected by a marquee exactly if its bounding box lies
/// fully in the marquee: an identifier is among the selected ones if and
/// only if an object that carries it does. An object that only overlaps the
/// marquee is left out.
pub proof fn lemma_enclosed_ids(scene: Seq<Shape>, area: Bounds, id: u128)
    ensures
        enclosed_ids(scene, area).contains(id) <==> exists|i: int|
            0 <= i < scene.len() && (#[trigger] scene[i]).id() == id && area.encloses(
                scene[i].bounds(),
            ),
    decreases scene.len(),
{
    if scene.len() > 0 {
        let front = scene.drop_last();
        let rest = enclosed_ids(front, area);
        let all = enclosed_ids(scene, area);
        lemma_enclosed_ids(front, area, id);
        let last = scene.len() - 1;
        if all.contains(id) {
            let k = choose|k: int| 0 <= k < all.len() && all[k] == id;
            if k < rest.len() {
                assert(rest[k] == id);
                let i = choose|i: int|
                    0 <= i < front.len() && (#[trigger] front[i]).id() == id && area.encloses(
                        front[i].bounds(),
                    );
                assert(scene[i].id() == id && area.encloses(scene[i].bounds()));
            } else {
                assert(scene[last].id() == id && area.encloses(scene[last].bounds()));
            }
        }
        if exists|i: int|
            0 <= i < scene.len() && (#[trigger] scene[i]).id() == id && area.encloses(
                scene[i].bounds(),
            ) {
            let i = choose|i: int|
                0 <= i < scene.len() && (#[trigger] scene[i]).id() == id && area.encloses(
                    scene[i].bounds(),
                );
            if i < last {
                assert(front[i].id() == id && area.encloses(front[i].bounds()));
                let k = choose|k: int| 0 <= k < rest.len() && rest[k] == id;
                assert(all[k] == id);
            } else {
                assert(all[all.len() - 1] == id);
            }
        }
    }
}

/// No two objects of the scene share an identifier.
pub open spec fn unique_ids(scene: Seq<Shape>) -> bool {
    forall|i: int, j: int|
        0 <= i < j < scene.len() ==> (#[trigger] scene[i]).id() != (#[trigger] scene[j]).id()
}

/// A marquee selection is a set: where no two objects share an identifier,
/// it names no identifier twice.
pub proof fn lemma_enclosed_ids_unique(scene: Seq<Shape>, area: Bounds)
    requires
        unique_ids(scene),
    ensures
        enclosed_ids(scene, area).no_duplicates(),
    decreases scene.len(),
{
    if scene.len() > 0 {
        let front = scene.drop_last();
        let rest = enclosed_ids(front, area);
        let last = scene.len() - 1;
        assert(unique_ids(front)) by {
            assert forall|i: int, j: int| 0 <= i < j < front.len() implies (#[trigger] front[i]).id()
                != (#[trigger] front[j]).id() by {
                assert(scene[i].id() != scene[j].id());
            }
        }
        lemma_enclosed_ids_unique(front, area);
        lemma_enclosed_ids(front, area, scene[last].id());
        if rest.contains(scene[last].id()) {
            let i = choose|i: int|
                0 <= i < front.len() && (#[trigger] front[i]).id() == scene[last].id()
                    && area.encloses(front[i].bounds());
            assert(scene[i].id() != scene[last].id());
        }
    }
}

/// Selects the objects that a marquee from `start` to `end` encloses.
pub fn select_in_marquee(objects: &Vec<DrawObject>, start: Point, end: Point) -> (ids: Vec<u128>)
    requires
        scene_wf(objects.deep_view()),
    ensures
        ids@ == enclosed_ids(objects.deep_view(), marquee(start, end)),
{
    let min_x: i64 = if end.x < start.x { end.x } else { start.x };
    let max_x: i64 = if end.x > start.x { end.x } else { start.x };
    let min_y: i64 = if end.y < start.y { end.y } else { start.y };
    let max_y: i64 = if end.y > start.y { end.y } else { start.y };
    let ghost scene = objects.deep_view();
    let ghost area = marquee(start, end);
    let mut ids: Vec<u128> = Vec::new();
    let mut i: usize = 0;
    assert(scene.take(0) =~= Seq::<Shape>::empty());
    while i < objects.len()
        invariant
            i <= objects.len(),
            scene == objects.deep_view(),
            scene_wf(scene),
            area == marquee(start, end),
            area == (Bounds {
                min: Point { x: min_x, y: min_y },
                max: Point { x: max_x, y: max_y },
            }),
            ids@ == enclosed_ids(scene.take(i as int), area),
        decreases objects.len() - i,
    {
        proof {
            let next = scene.take(i + 1);
            assert(next.drop_last() =~= scene.take(i as int));
            assert(next.last() == objects@[i as int]@);
            assert(scene[i as int].wf());
        }
        let b: Bounds = objects[i].bounds();
        if b.min.x >= min_x && b.max.x <= max_x && b.min.y >= min_y && b.max.y <= max_y {
            ids.push(objects[i].id());
        }
        i += 1;
    }
    assert(scene.take(objects.len() as int) =~= scene);
    ids
}

} // verus!
