//! The selection gesture: a state machine over drag events.
//!
//! A drag starts on a handle of the selection (scale or rotate), inside its
//! bounds (move) or elsewhere (marquee). Scaling and rotating work from the
//! objects as they were when the drag started, so that the steps of one drag
//! do not add up their rounding.

use crate::models::{
    point_in_canvas, Bounds, DrawObject, Point, SelectionHandle, SelectionMode, Shape,
};
use crate::resize::{handle_scale, scale_for_handle};
use crate::selection::{
    enclosed_ids, find_id, find_object, get_handle_at_pos, get_selection_bounds, handle_at,
    is_selected, lemma_find_id, lemma_find_same_ids, lemma_is_selected_same_ids,
    lemma_transform_selected_frame, marquee, same_ids, scene_is_wf, scene_wf, select_in_marquee,
    selection_bounds, transform_objects, transform_selected,
};
use crate::transform::{move_by, rotation_between, Ratio, Rotation, Scale, Transform, ROT_ONE};
use vstd::prelude::*;

verus! {

/// The state of the selection and of the gesture in progress.
#[derive(Debug)]
pub struct SelectionState {
    /// The identifiers of the selected objects.
    pub selected: Vec<u128>,
    /// Where the marquee drag started.
    pub start: Option<Point>,
    /// The marquee: where its drag started and where it is now.
    pub rect: Option<(Point, Point)>,
    /// What the drag in progress does.
    pub mode: SelectionMode,
    /// Where the drag started, or for a move, where it was last.
    pub drag_start: Option<Point>,
    /// The bounds of the selection when the drag started.
    pub original_bounds: Option<Bounds>,
    /// The handle that the drag started on.
    pub handle: Option<SelectionHandle>,
    /// The selected objects as they were when the drag started.
    pub saved: Vec<DrawObject>,
}

/// A [`SelectionState`] as a mathematical value.
pub struct SelectionModel {
    pub selected: Seq<u128>,
    pub start: Option<Point>,
    pub rect: Option<(Point, Point)>,
    pub mode: SelectionMode,
    pub drag_start: Option<Point>,
    pub original_bounds: Option<Bounds>,
    pub handle: Option<SelectionHandle>,
    pub saved: Seq<Shape>,
}

impl View for SelectionState {
    type V = SelectionModel;

    open spec fn view(&self) -> SelectionModel {
        SelectionModel {
            selected: self.selected@,
            start: self.start,
            rect: self.rect,
            mode: self.mode,
            drag_start: self.drag_start,
            original_bounds: self.original_bounds,
            handle: self.handle,
            saved: self.saved.deep_view(),
        }
    }
}

impl SelectionModel {
    /// Nothing selected and no gesture under way.
    pub open spec fn idle() -> SelectionModel {
        SelectionModel {
            selected: Seq::empty(),
            start: None,
            rect: None,
            mode: SelectionMode::Idle,
            drag_start: None,
            original_bounds: None,
            handle: None,
            saved: Seq::empty(),
        }
    }

    /// The remembered points lie in the coordinate range and the saved
    /// objects are well-formed.
    pub open spec fn wf(self) -> bool {
        &&& self.start matches Some(p) ==> p.in_canvas()
        &&& self.rect matches Some(r) ==> r.0.in_canvas() && r.1.in_canvas()
        &&& self.drag_start matches Some(p) ==> p.in_canvas()
        &&& scene_wf(self.saved)
    }
}

/// The objects that `ids` resolve to, in the order of `ids`.
pub open spec fn resolved(scene: Seq<Shape>, ids: Seq<u128>) -> Seq<Shape>
    decreases ids.len(),
{
    if ids.len() == 0 {
        Seq::empty()
    } else {
        let rest = resolved(scene, ids.drop_last());
        match find_id(scene, ids.last()) {
            Some(i) => rest.push(scene[i]),
            None => rest,
        }
    }
}

/// The scene after every saved object took the place of the object that its
/// identifier resolves to. A saved object whose identifier resolves to
/// nothing is passed over.
pub open spec fn restored(scene: Seq<Shape>, saved: Seq<Shape>) -> Seq<Shape>
    decreases saved.len(),
{
    if saved.len() == 0 {
        scene
    } else {
        let rest = restored(scene, saved.drop_last());
        match find_id(rest, saved.last().id()) {
            Some(i) => rest.update(i, saved.last()),
            None => rest,
        }
    }
}

/// Putting the saved objects back restores exactly the objects that the
/// selection resolved to when they were saved, and leaves the rest of the
/// scene alone. `start` is the scene at the time of saving; `scene` is the
/// scene now, with the same identifiers at the same places.
pub proof fn lemma_restored(scene: Seq<Shape>, start: Seq<Shape>, ids: Seq<u128>)
    requires
        same_ids(scene, start),
    ensures
        same_ids(restored(scene, resolved(start, ids)), start),
        forall|i: int|
            0 <= i < scene.len() ==> #[trigger] restored(scene, resolved(start, ids))[i]
                == if is_selected(start, ids, i) {
                start[i]
            } else {
                scene[i]
            },
    decreases ids.len(),
{
    if ids.len() > 0 {
        let rest = ids.drop_last();
        let id = ids.last();
        lemma_restored(scene, start, rest);
        lemma_find_id(start, id);
        let before = restored(scene, resolved(start, rest));
        let out = restored(scene, resolved(start, ids));
        match find_id(start, id) {
            Some(k) => {
                let saved = resolved(start, ids);
                assert(saved.drop_last() =~= resolved(start, rest));
                assert(saved.last() == start[k]);
                lemma_find_same_ids(before, start, id, 0);
                assert(out == before.update(k, start[k]));
            },
            None => {},
        }
        assert forall|i: int| 0 <= i < scene.len() implies #[trigger] out[i] == if is_selected(
            start,
            ids,
            i,
        ) {
            start[i]
        } else {
            scene[i]
        } by {
            let sid = start[i].id();
            if rest.contains(sid) {
                let j = choose|j: int| 0 <= j < rest.len() && rest[j] == sid;
                assert(ids[j] == sid);
            }
            if sid == id {
                assert(ids[ids.len() - 1] == sid);
            }
            if ids.contains(sid) && sid != id {
                let j = choose|j: int| 0 <= j < ids.len() && ids[j] == sid;
                assert(rest[j] == sid);
            }
        }
        assert(same_ids(out, start)) by {
            assert forall|i: int| 0 <= i < out.len() implies (#[trigger] out[i]).id()
                == start[i].id() by {
                assert(scene[i].id() == start[i].id());
            }
        }
    } else {
        assert(resolved(start, ids) =~= Seq::<Shape>::empty());
    }
}

/// The steps of a scaling or rotating drag do not add up: a step gives the
/// same scene whatever steps came before it in the drag. `start` is the
/// scene when the drag started, of which the state holds the saved objects;
/// `scene` is the scene now, with the same identifiers at the same places.
pub proof fn lemma_steps_do_not_compound(
    m: SelectionModel,
    start: Seq<Shape>,
    scene: Seq<Shape>,
    first: Point,
    second: Point,
)
    requires
        m.mode == SelectionMode::Scaling || m.mode == SelectionMode::Rotating,
        m.saved == resolved(start, m.selected),
        same_ids(scene, start),
    ensures
        scene_stepped(m, scene_stepped(m, scene, first), second) == scene_stepped(
            m,
            scene,
            second,
        ),
{
    let back = restored(scene, m.saved);
    let stepped = scene_stepped(m, scene, first);
    lemma_restored(scene, start, m.selected);
    if stepped != scene {
        // The first step put the saved objects back and then, at most,
        // transformed the selection.
        assert(same_ids(stepped, start) && forall|i: int|
            0 <= i < scene.len() && !is_selected(start, m.selected, i) ==> #[trigger] stepped[i]
                == back[i]) by {
            if stepped != back {
                let t = choose|t: Transform| stepped == transform_selected(back, m.selected, t);
                lemma_transform_selected_frame(back, m.selected, t);
                assert forall|i: int|
                    0 <= i < scene.len() && !is_selected(
                        start,
                        m.selected,
                        i,
                    ) implies #[trigger] stepped[i] == back[i] by {
                    lemma_is_selected_same_ids(back, start, m.selected, i);
                }
                assert forall|i: int| 0 <= i < stepped.len() implies (#[trigger] stepped[i]).id()
                    == start[i].id() by {
                    assert(back[i].id() == start[i].id());
                }
            }
        }
        lemma_restored(stepped, start, m.selected);
        assert(restored(stepped, m.saved) =~= back);
    }
}

/// The transform of a scaling step.
pub open spec fn scaling(scale: Scale, center: Point) -> Transform {
    Transform {
        scale,
        rotation: Rotation { cos: ROT_ONE, sin: 0 },
        translation: Point { x: 0, y: 0 },
        center,
    }
}

/// The transform of a rotating step.
pub open spec fn rotating(rotation: Rotation, center: Point) -> Transform {
    Transform {
        scale: Scale { x: Ratio { num: 1, den: 1 }, y: Ratio { num: 1, den: 1 } },
        rotation,
        translation: Point { x: 0, y: 0 },
        center,
    }
}

/// The state after a drag started at `pos`.
///
/// With a selection that has bounds: on a handle, scaling or rotating
/// begins and remembers the handle, the point, the bounds and the selected
/// objects; inside the bounds, moving begins; elsewhere the selection is
/// dropped and a marquee begins. Without bounds a marquee begins.
pub open spec fn drag_started(m: SelectionModel, scene: Seq<Shape>, pos: Point, zoom: int) -> SelectionModel {
    match selection_bounds(scene, m.selected) {
        Some(bounds) => match handle_at(pos, bounds, zoom) {
            Some(handle) => SelectionModel {
                handle: Some(handle),
                drag_start: Some(pos),
                original_bounds: Some(bounds),
                saved: resolved(scene, m.selected),
                mode: if handle == SelectionHandle::Rotate {
                    SelectionMode::Rotating
                } else {
                    SelectionMode::Scaling
                },
                ..m
            },
            None => if bounds.contains(pos) {
                SelectionModel { mode: SelectionMode::Moving, drag_start: Some(pos), ..m }
            } else {
                SelectionModel {
                    selected: Seq::empty(),
                    start: Some(pos),
                    mode: SelectionMode::Selecting,
                    ..m
                }
            },
        },
        None => SelectionModel { start: Some(pos), mode: SelectionMode::Selecting, ..m },
    }
}

/// The state after the drag went on to `pos`: a marquee follows the
/// pointer, a move remembers the point for its next step, scaling and
/// rotating change nothing of the state.
pub open spec fn drag_stepped(m: SelectionModel, pos: Point) -> SelectionModel {
    match m.mode {
        SelectionMode::Selecting => match m.start {
            Some(start) => SelectionModel { rect: Some((start, pos)), ..m },
            None => m,
        },
        SelectionMode::Moving => match m.drag_start {
            Some(_) => SelectionModel { drag_start: Some(pos), ..m },
            None => m,
        },
        _ => m,
    }
}

/// The scene after the drag went on to `pos`.
///
/// Moving translates the selection by the way from the last point to
/// `pos`. Scaling and rotating first put the saved objects back, then
/// scale by what the handle asks for, or rotate by the angle between the
/// first point of the drag and `pos`, both about the center of the original
/// bounds. Original bounds that cannot be scaled leave the saved objects
/// as they were.
pub open spec fn scene_stepped(m: SelectionModel, scene: Seq<Shape>, pos: Point) -> Seq<Shape> {
    match m.mode {
        SelectionMode::Moving => match (m.drag_start, selection_bounds(scene, m.selected)) {
            (Some(from), Some(bounds)) => transform_selected(
                scene,
                m.selected,
                move_by(
                    Point { x: (pos.x - from.x) as i64, y: (pos.y - from.y) as i64 },
                    bounds.center(),
                ),
            ),
            _ => scene,
        },
        SelectionMode::Scaling => match (m.original_bounds, m.handle) {
            (Some(bounds), Some(handle)) => {
                let back = restored(scene, m.saved);
                if bounds.bounded() {
                    match handle_scale(handle, bounds, pos) {
                        Some(scale) => transform_selected(
                            back,
                            m.selected,
                            scaling(scale, bounds.center()),
                        ),
                        None => back,
                    }
                } else {
                    back
                }
            },
            _ => scene,
        },
        SelectionMode::Rotating => match (m.drag_start, m.original_bounds) {
            (Some(from), Some(bounds)) => transform_selected(
                restored(scene, m.saved),
                m.selected,
                rotating(rotation_between(bounds.center(), from, pos), bounds.center()),
            ),
            _ => scene,
        },
        _ => scene,
    }
}

/// The state after the drag ended. A marquee selects what it encloses, in
/// place of the selection before; a marquee drag that never moved leaves the
/// selection as it is. Every gesture forgets what it remembered.
pub open spec fn drag_ended(m: SelectionModel, scene: Seq<Shape>) -> SelectionModel {
    let settled = if m.mode == SelectionMode::Selecting {
        SelectionModel {
            selected: match m.rect {
                Some(r) => enclosed_ids(scene, marquee(r.0, r.1)),
                None => m.selected,
            },
            rect: None,
            start: None,
            ..m
        }
    } else {
        m
    };
    SelectionModel {
        mode: SelectionMode::Idle,
        drag_start: None,
        original_bounds: None,
        handle: None,
        saved: Seq::empty(),
        ..settled
    }
}

/// Copies the objects that `selected` resolve to.
pub fn save_selected(objects: &Vec<DrawObject>, selected: &Vec<u128>) -> (saved: Vec<DrawObject>)
    requires
        scene_wf(objects.deep_view()),
    ensures
        saved.deep_view() == resolved(objects.deep_view(), selected@),
        scene_wf(saved.deep_view()),
{
    let ghost scene = objects.deep_view();
    let mut saved: Vec<DrawObject> = Vec::new();
    let mut k: usize = 0;
    assert(selected@.take(0) =~= Seq::<u128>::empty());
    assert(saved.deep_view() =~= Seq::<Shape>::empty());
    while k < selected.len()
        invariant
            k <= selected.len(),
            scene == objects.deep_view(),
            scene_wf(scene),
            saved.deep_view() == resolved(scene, selected@.take(k as int)),
            scene_wf(saved.deep_view()),
        decreases selected.len() - k,
    {
        let ghost before = saved.deep_view();
        proof {
            let next = selected@.take(k + 1);
            assert(next.drop_last() =~= selected@.take(k as int));
            assert(next.last() == selected@[k as int]);
        }
        match find_object(objects, selected[k]) {
            Some(i) => {
                assert(scene[i as int] == objects@[i as int]@);
                saved.push(objects[i].clone());
                assert(saved.deep_view() =~= before.push(scene[i as int]));
            },
            None => {},
        }
        k += 1;
    }
    assert(selected@.take(selected.len() as int) =~= selected@);
    saved
}

/// Puts every saved object back in the place of the object that its
/// identifier resolves to.
pub fn restore_saved(objects: &mut Vec<DrawObject>, saved: &Vec<DrawObject>)
    requires
        scene_wf(old(objects).deep_view()),
        scene_wf(saved.deep_view()),
    ensures
        final(objects).deep_view() == restored(old(objects).deep_view(), saved.deep_view()),
        scene_wf(final(objects).deep_view()),
{
    let ghost before = objects.deep_view();
    let ghost all = saved.deep_view();
    let mut k: usize = 0;
    assert(all.take(0) =~= Seq::<Shape>::empty());
    while k < saved.len()
        invariant
            k <= saved.len(),
            all == saved.deep_view(),
            scene_wf(all),
            scene_wf(objects.deep_view()),
            objects.deep_view() == restored(before, all.take(k as int)),
        decreases saved.len() - k,
    {
        let ghost scene = objects.deep_view();
        proof {
            let next = all.take(k + 1);
            assert(next.drop_last() =~= all.take(k as int));
            assert(next.last() == saved@[k as int]@);
            assert(all[k as int].wf());
        }
        match find_object(objects, saved[k].id()) {
            Some(i) => {
                objects.set(i, saved[k].clone());
                assert(objects.deep_view() =~= scene.update(i as int, all[k as int]));
            },
            None => {},
        }
        k += 1;
    }
    assert(all.take(saved.len() as int) =~= all);
}

impl SelectionState {
    /// See [`SelectionModel::wf`].
    pub open spec fn wf(&self) -> bool {
        self@.wf()
    }

    /// Tests whether the state is well-formed.
    pub fn is_wf(&self) -> (ok: bool)
        ensures
            ok == self.wf(),
    {
        let start_ok: bool = match self.start {
            Some(p) => point_in_canvas(p),
            None => true,
        };
        let rect_ok: bool = match self.rect {
            Some(r) => point_in_canvas(r.0) && point_in_canvas(r.1),
            None => true,
        };
        let drag_ok: bool = match self.drag_start {
            Some(p) => point_in_canvas(p),
            None => true,
        };
        start_ok && rect_ok && drag_ok && scene_is_wf(&self.saved)
    }

    /// No selection and no gesture.
    pub fn new() -> (s: SelectionState)
        ensures
            s@ == SelectionModel::idle(),
            s.wf(),
    {
        let s = SelectionState {
            selected: Vec::new(),
            start: None,
            rect: None,
            mode: SelectionMode::Idle,
            drag_start: None,
            original_bounds: None,
            handle: None,
            saved: Vec::new(),
        };
        assert(s.saved.deep_view() =~= Seq::<Shape>::empty());
        s
    }

    /// A drag starts at `canvas_pos`: see [`drag_started`].
    pub fn drag_start(&mut self, objects: &Vec<DrawObject>, canvas_pos: Point, canvas_zoom: i64)
        requires
            old(self).wf(),
            scene_wf(objects.deep_view()),
            canvas_pos.in_canvas(),
            canvas_zoom > 0,
        ensures
            final(self)@ == drag_started(
                old(self)@,
                objects.deep_view(),
                canvas_pos,
                canvas_zoom as int,
            ),
            final(self).wf(),
    {
        match get_selection_bounds(objects, &self.selected) {
            Some(bounds) => {
                match get_handle_at_pos(canvas_pos, bounds, canvas_zoom) {
                    Some(handle) => {
                        self.handle = Some(handle);
                        self.drag_start = Some(canvas_pos);
                        self.original_bounds = Some(bounds);
                        self.saved = save_selected(objects, &self.selected);
                        self.mode = match handle {
                            SelectionHandle::Rotate => SelectionMode::Rotating,
                            _ => SelectionMode::Scaling,
                        };
                    },
                    None => {
                        if bounds.holds(canvas_pos) {
                            self.mode = SelectionMode::Moving;
                            self.drag_start = Some(canvas_pos);
                        } else {
                            self.selected.clear();
                            self.start = Some(canvas_pos);
                            self.mode = SelectionMode::Selecting;
                        }
                    },
                }
            },
            None => {
                self.start = Some(canvas_pos);
                self.mode = SelectionMode::Selecting;
            },
        }
    }

    /// The drag goes on to `canvas_pos`: see [`drag_stepped`] for the state
    /// and [`scene_stepped`] for the scene.
    pub fn drag_step(&mut self, objects: &mut Vec<DrawObject>, canvas_pos: Point)
        requires
            old(self).wf(),
            scene_wf(old(objects).deep_view()),
            canvas_pos.in_canvas(),
        ensures
            final(self)@ == drag_stepped(old(self)@, canvas_pos),
            final(objects).deep_view() == scene_stepped(
                old(self)@,
                old(objects).deep_view(),
                canvas_pos,
            ),
            final(self).wf(),
            scene_wf(final(objects).deep_view()),
    {
        match self.mode {
            SelectionMode::Selecting => {
                if let Some(start) = self.start {
                    self.rect = Some((start, canvas_pos));
                }
            },
            SelectionMode::Moving => {
                if let Some(from) = self.drag_start {
                    let delta = Point { x: canvas_pos.x - from.x, y: canvas_pos.y - from.y };
                    if let Some(bounds) = get_selection_bounds(objects, &self.selected) {
                        transform_objects(
                            objects,
                            &self.selected,
                            Scale::one(),
                            Rotation::identity(),
                            delta,
                            bounds.center_point(),
                        );
                    }
                    self.drag_start = Some(canvas_pos);
                }
            },
            SelectionMode::Scaling => {
                if let Some(bounds) = self.original_bounds {
                    if let Some(handle) = self.handle {
                        restore_saved(objects, &self.saved);
                        if bounds.is_bounded() {
                            if let Some(scale) = scale_for_handle(handle, bounds, canvas_pos) {
                                transform_objects(
                                    objects,
                                    &self.selected,
                                    scale,
                                    Rotation::identity(),
                                    Point { x: 0, y: 0 },
                                    bounds.center_point(),
                                );
                            }
                        }
                    }
                }
            },
            SelectionMode::Rotating => {
                if let Some(from) = self.drag_start {
                    if let Some(bounds) = self.original_bounds {
                        let center: Point = bounds.center_point();
                        let rotation: Rotation = Rotation::between(center, from, canvas_pos);
                        restore_saved(objects, &self.saved);
                        transform_objects(
                            objects,
                            &self.selected,
                            Scale::one(),
                            rotation,
                            Point { x: 0, y: 0 },
                            center,
                        );
                    }
                }
            },
            SelectionMode::Idle => {},
        }
    }

    /// The drag ends: see [`drag_ended`].
    pub fn drag_end(&mut self, objects: &Vec<DrawObject>)
        requires
            old(self).wf(),
            scene_wf(objects.deep_view()),
        ensures
            final(self)@ == drag_ended(old(self)@, objects.deep_view()),
            final(self).wf(),
    {
        if self.mode == SelectionMode::Selecting {
            if let Some(r) = self.rect {
                self.selected = select_in_marquee(objects, r.0, r.1);
            }
            self.rect = None;
            self.start = None;
        }
        self.mode = SelectionMode::Idle;
        self.drag_start = None;
        self.original_bounds = None;
        self.handle = None;
        self.saved.clear();
        assert(self.saved.deep_view() =~= Seq::<Shape>::empty());
    }
}

} // verus!
