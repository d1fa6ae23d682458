//! The whiteboard: the scene, its undo history, and what each tool does to
//! them.
//!
//! Every operation is one event of the interaction loop. A gesture that
//! changes the scene first pushes a snapshot of it onto the history.

use crate::canvas::{find_object_at, hit_test};
use crate::fixed::{clamp_coord, integer_sqrt, isqrt, lemma_mul_range, saturate};
use crate::gesture::{drag_ended, drag_started, drag_stepped, scene_stepped};
use crate::gesture::{SelectionModel, SelectionState};
use crate::history::{pushed, History, HISTORY_LIMIT};
use crate::ids::{fresh_id, is_random_id};
use crate::models::{
    clone_scene, point_in_canvas, points_in_canvas, valid_length, DrawObject, Point,
    SelectionMode, Shape, Size, StrokePoint, Tool, WhiteboardState,
};
use crate::selection::{
    find_id, find_object, lemma_find_id, marquee, scene_is_wf, scene_wf,
};
use crate::smoothing::{lemma_smoothed_in_canvas, smooth_stroke, smoothed};
use vstd::prelude::*;

verus! {

/// The whiteboard.
#[derive(Debug)]
pub struct Whiteboard {
    /// The scene, in drawing order: later objects lie on top.
    pub objects: Vec<DrawObject>,
    /// Snapshots of the scene to go back to.
    pub undo_stack: History,
    /// The selection and its gesture.
    pub selection: SelectionState,
    /// Whether a freehand stroke is being captured.
    pub is_drawing: bool,
    /// The points of the stroke that is being captured.
    pub current_stroke: Vec<StrokePoint>,
    /// Where the drag of a shape tool started.
    pub draw_start_pos: Option<Point>,
    /// The formula whose text is being edited.
    pub editing_text: Option<u128>,
}

/// A [`Whiteboard`] as a mathematical value.
pub struct BoardModel {
    pub objects: Seq<Shape>,
    pub undo_stack: Seq<Seq<Shape>>,
    pub selection: SelectionModel,
    pub is_drawing: bool,
    pub current_stroke: Seq<StrokePoint>,
    pub draw_start_pos: Option<Point>,
    pub editing_text: Option<u128>,
}

impl View for Whiteboard {
    type V = BoardModel;

    open spec fn view(&self) -> BoardModel {
        BoardModel {
            objects: self.objects.deep_view(),
            undo_stack: self.undo_stack@,
            selection: self.selection@,
            is_drawing: self.is_drawing,
            current_stroke: self.current_stroke@,
            draw_start_pos: self.draw_start_pos,
            editing_text: self.editing_text,
        }
    }
}

/// The scene without the objects whose identifier is `id`.
pub open spec fn without_id(scene: Seq<Shape>, id: u128) -> Seq<Shape>
    decreases scene.len(),
{
    if scene.len() == 0 {
        Seq::empty()
    } else {
        let rest = without_id(scene.drop_last(), id);
        if scene.last().id() == id {
            rest
        } else {
            rest.push(scene.last())
        }
    }
}

/// The object that a shape tool draws from `start` to `end`: a line
/// between the two, a circle around `start` through `end`, or the rectangle
/// that the two span with its corners in order. Other tools draw nothing.
pub open spec fn drawn_shape(
    tool: Tool,
    id: u128,
    start: Point,
    end: Point,
    color: [u8; 4],
    width: i64,
) -> Option<Shape> {
    match tool {
        Tool::Line => Some(Shape::Line { id, start, end, color, width }),
        Tool::Circle => Some(
            Shape::Circle {
                id,
                center: start,
                radius: clamp_coord(
                    isqrt(
                        ((end.x - start.x) * (end.x - start.x) + (end.y - start.y) * (end.y
                            - start.y)) as nat,
                    ) as int,
                ) as i64,
                color,
                width,
                filled: false,
            },
        ),
        Tool::Square => Some(
            Shape::Rectangle {
                id,
                min: marquee(start, end).min,
                max: marquee(start, end).max,
                color,
                width,
                filled: false,
            },
        ),
        _ => None,
    }
}

/// The index of the formula under `p`: of the object that the identifier
/// of the topmost object under `p` resolves to, if that is a formula.
pub open spec fn formula_at(scene: Seq<Shape>, p: Point) -> Option<int> {
    match hit_test(scene, p) {
        Some(id) => match find_id(scene, id) {
            Some(i) => if scene[i] is LatexFormula {
                Some(i)
            } else {
                None
            },
            None => None,
        },
        None => None,
    }
}

/// The formula with a new text: the rendered size is forgotten with the
/// old text.
pub open spec fn with_formula(s: Shape, text: Seq<char>) -> Shape {
    match s {
        Shape::LatexFormula { id, pos, color, .. } => Shape::LatexFormula {
            id,
            pos,
            formula: text,
            color,
            cached_size: None,
        },
        _ => s,
    }
}

/// The formula with its rendered size.
pub open spec fn with_size(s: Shape, size: Size) -> Shape {
    match s {
        Shape::LatexFormula { id, pos, formula, color, .. } => Shape::LatexFormula {
            id,
            pos,
            formula,
            color,
            cached_size: Some(size),
        },
        _ => s,
    }
}

/// The scene after the formula that `id` resolves to got a new text.
pub open spec fn formula_set(scene: Seq<Shape>, id: u128, text: Seq<char>) -> Seq<Shape> {
    match find_id(scene, id) {
        Some(i) => scene.update(i, with_formula(scene[i], text)),
        None => scene,
    }
}

/// The scene after the formula that `id` resolves to got its rendered
/// size.
pub open spec fn size_set(scene: Seq<Shape>, id: u128, size: Size) -> Seq<Shape> {
    match find_id(scene, id) {
        Some(i) => scene.update(i, with_size(scene[i], size)),
        None => scene,
    }
}

impl BoardModel {
    /// The empty whiteboard: no object, no snapshot, no selection, and no
    /// gesture under way.
    pub open spec fn empty() -> BoardModel {
        BoardModel {
            objects: Seq::empty(),
            undo_stack: Seq::empty(),
            selection: SelectionModel::idle(),
            is_drawing: false,
            current_stroke: Seq::empty(),
            draw_start_pos: None,
            editing_text: None,
        }
    }

    /// Every object of the scene, of the snapshots and of the selection is
    /// well-formed, the history is within its limit, and the remembered
    /// points lie in the coordinate range.
    pub open spec fn wf(self) -> bool {
        &&& scene_wf(self.objects)
        &&& self.undo_stack.len() <= HISTORY_LIMIT
        &&& forall|i: int| 0 <= i < self.undo_stack.len() ==> scene_wf(#[trigger] self.undo_stack[i])
        &&& self.selection.wf()
        &&& points_in_canvas(self.current_stroke)
        &&& self.draw_start_pos matches Some(p) ==> p.in_canvas()
    }

    /// A snapshot of the scene is pushed onto the history.
    pub open spec fn with_undo(self) -> BoardModel {
        BoardModel { undo_stack: pushed(self.undo_stack, self.objects), ..self }
    }

    /// The most recent snapshot becomes the scene and leaves the history.
    pub open spec fn undone(self) -> BoardModel {
        if self.undo_stack.len() > 0 {
            BoardModel {
                objects: self.undo_stack.last(),
                undo_stack: self.undo_stack.drop_last(),
                ..self
            }
        } else {
            self
        }
    }

    /// The capture of a stroke begins at `pos`.
    pub open spec fn stroke_started(self, pos: Point) -> BoardModel {
        BoardModel { is_drawing: true, current_stroke: seq![StrokePoint { pos }], ..self }
    }

    /// The captured stroke goes on to `pos`.
    pub open spec fn stroke_extended(self, pos: Point) -> BoardModel {
        if self.is_drawing {
            BoardModel { current_stroke: self.current_stroke.push(StrokePoint { pos }), ..self }
        } else {
            self
        }
    }

    /// Whether the end of the capture adds a stroke: a capture is under
    /// way and holds more than one point.
    pub open spec fn stroke_counts(self) -> bool {
        self.is_drawing && self.current_stroke.len() > 1
    }

    /// The capture ends. A capture of more than one point becomes a
    /// smoothed stroke on top of the scene, after a snapshot.
    pub open spec fn stroke_finished(self, id: u128, color: [u8; 4], width: i64) -> BoardModel {
        if !self.is_drawing {
            self
        } else if self.current_stroke.len() > 1 {
            BoardModel {
                objects: self.objects.push(
                    Shape::Stroke { id, points: smoothed(self.current_stroke), color, width },
                ),
                undo_stack: pushed(self.undo_stack, self.objects),
                is_drawing: false,
                current_stroke: Seq::empty(),
                ..self
            }
        } else {
            BoardModel { is_drawing: false, current_stroke: Seq::empty(), ..self }
        }
    }

    /// The drag of a shape tool ends at `pos`. After a snapshot, the shape
    /// is drawn on top of the scene.
    pub open spec fn shape_finished(
        self,
        tool: Tool,
        id: u128,
        pos: Point,
        color: [u8; 4],
        width: i64,
    ) -> BoardModel {
        match self.draw_start_pos {
            Some(start) => BoardModel {
                objects: match drawn_shape(tool, id, start, pos, color, width) {
                    Some(shape) => self.objects.push(shape),
                    None => self.objects,
                },
                undo_stack: pushed(self.undo_stack, self.objects),
                draw_start_pos: None,
                ..self
            },
            None => self,
        }
    }

    /// The eraser touches `pos`: after a snapshot, every object with the
    /// identifier of the topmost object under `pos` leaves the scene.
    pub open spec fn erased(self, pos: Point) -> BoardModel {
        match hit_test(self.objects, pos) {
            Some(id) => BoardModel {
                objects: without_id(self.objects, id),
                undo_stack: pushed(self.undo_stack, self.objects),
                ..self
            },
            None => self,
        }
    }

    /// A drag of the select tool starts at `pos`. A drag that moves, scales
    /// or rotates pushes a snapshot first.
    pub open spec fn select_started(self, pos: Point, zoom: int) -> BoardModel {
        let selection = drag_started(self.selection, self.objects, pos, zoom);
        let next = BoardModel { selection, ..self };
        if selection.mode == SelectionMode::Moving || selection.mode == SelectionMode::Scaling
            || selection.mode == SelectionMode::Rotating {
            next.with_undo()
        } else {
            next
        }
    }

    /// The drag of the select tool goes on to `pos`.
    pub open spec fn select_stepped(self, pos: Point) -> BoardModel {
        BoardModel {
            objects: scene_stepped(self.selection, self.objects, pos),
            selection: drag_stepped(self.selection, pos),
            ..self
        }
    }

    /// The drag of the select tool ends.
    pub open spec fn select_ended(self) -> BoardModel {
        BoardModel { selection: drag_ended(self.selection, self.objects), ..self }
    }

    /// The text tool clicks at `pos`. On a formula, its text is taken up for
    /// editing. Elsewhere, after a snapshot, an empty formula is placed at
    /// `pos` and taken up for editing.
    pub open spec fn text_clicked(self, new_id: u128, pos: Point, color: [u8; 4]) -> BoardModel {
        match formula_at(self.objects, pos) {
            Some(i) => BoardModel { editing_text: Some(self.objects[i].id()), ..self },
            None => BoardModel {
                objects: self.objects.push(
                    Shape::LatexFormula {
                        id: new_id,
                        pos,
                        formula: Seq::empty(),
                        color,
                        cached_size: None,
                    },
                ),
                undo_stack: pushed(self.undo_stack, self.objects),
                editing_text: Some(new_id),
                ..self
            },
        }
    }

    /// The edited text is committed to its formula, and editing ends.
    pub open spec fn text_committed(self, text: Seq<char>) -> BoardModel {
        match self.editing_text {
            Some(id) => BoardModel {
                objects: formula_set(self.objects, id, text),
                editing_text: None,
                ..self
            },
            None => self,
        }
    }

    /// A formula is placed on top of the scene.
    pub open spec fn formula_added(
        self,
        id: u128,
        pos: Point,
        formula: Seq<char>,
        color: [u8; 4],
    ) -> BoardModel {
        BoardModel {
            objects: self.objects.push(
                Shape::LatexFormula { id, pos, formula, color, cached_size: None },
            ),
            ..self
        }
    }

    /// The rendered size of the formula `id` is remembered.
    pub open spec fn size_cached(self, id: u128, size: Size) -> BoardModel {
        BoardModel { objects: size_set(self.objects, id, size), ..self }
    }

    /// After a snapshot, the scene is emptied.
    pub open spec fn cleared(self) -> BoardModel {
        BoardModel {
            objects: Seq::empty(),
            undo_stack: pushed(self.undo_stack, self.objects),
            ..self
        }
    }
}

/// Two undos after two edits restore the scene as it was two edits
/// before. `first` and `second` are the scenes that the two edits made, each
/// after a snapshot of the scene before it.
pub proof fn lemma_two_undos(m: BoardModel, first: Seq<Shape>, second: Seq<Shape>)
    ensures
        ({
            let once = BoardModel { objects: first, ..m.with_undo() };
            let twice = BoardModel { objects: second, ..once.with_undo() };
            &&& twice.undone().objects == first
            &&& twice.undone().undone().objects == m.objects
        }),
{
    let once = BoardModel { objects: first, ..m.with_undo() };
    let twice = BoardModel { objects: second, ..once.with_undo() };
    assert(once.undo_stack.last() == m.objects);
    assert(twice.undo_stack.last() == first);
    assert(twice.undo_stack.drop_last().last() == m.objects);
}

/// Removes every object whose identifier is `id`.
pub fn remove_by_id(objects: &mut Vec<DrawObject>, id: u128)
    ensures
        final(objects).deep_view() == without_id(old(objects).deep_view(), id),
        scene_wf(old(objects).deep_view()) ==> scene_wf(final(objects).deep_view()),
{
    let ghost scene = objects.deep_view();
    let mut kept: Vec<DrawObject> = Vec::new();
    let mut i: usize = 0;
    assert(scene.take(0) =~= Seq::<Shape>::empty());
    assert(kept.deep_view() =~= Seq::<Shape>::empty());
    while i < objects.len()
        invariant
            i <= objects.len(),
            scene == objects.deep_view(),
            kept.deep_view() == without_id(scene.take(i as int), id),
            forall|j: int|
                0 <= j < kept.len() ==> exists|k: int|
                    0 <= k < scene.len() && scene[k] == #[trigger] kept.deep_view()[j],
        decreases objects.len() - i,
    {
        let ghost before = kept.deep_view();
        proof {
            let next = scene.take(i + 1);
            assert(next.drop_last() =~= scene.take(i as int));
            assert(next.last() == objects@[i as int]@);
        }
        if objects[i].id() != id {
            kept.push(objects[i].clone());
            assert(kept.deep_view() =~= before.push(scene[i as int]));
            assert forall|j: int| 0 <= j < kept.len() implies exists|k: int|
                0 <= k < scene.len() && scene[k] == #[trigger] kept.deep_view()[j] by {
                if j < before.len() {
                    assert(kept.deep_view()[j] == before[j]);
                } else {
                    assert(scene[i as int] == kept.deep_view()[j]);
                }
            }
        }
        i += 1;
    }
    assert(scene.take(objects.len() as int) =~= scene);
    *objects = kept;
}

/// Builds the object that a shape tool draws from `start` to `end`.
pub fn draw_shape(tool: Tool, id: u128, start: Point, end: Point, color: [u8; 4], width: i64) -> (shape:
    Option<DrawObject>)
    requires
        start.in_canvas(),
        end.in_canvas(),
        valid_length(width),
    ensures
        match shape {
            Some(s) => drawn_shape(tool, id, start, end, color, width) == Some(s@) && s.wf(),
            None => drawn_shape(tool, id, start, end, color, width).is_none(),
        },
{
    match tool {
        Tool::Line => Some(DrawObject::Line { id, start, end, color, width }),
        Tool::Circle => {
            let dx: i128 = end.x as i128 - start.x as i128;
            let dy: i128 = end.y as i128 - start.y as i128;
            proof {
                lemma_mul_range(dx as int, dx as int, 200_000_000_000_000, 200_000_000_000_000);
                lemma_mul_range(dy as int, dy as int, 200_000_000_000_000, 200_000_000_000_000);
                assert(dx * dx >= 0) by (nonlinear_arith);
                assert(dy * dy >= 0) by (nonlinear_arith);
            }
            let square: i128 = dx * dx + dy * dy;
            let radius: i64 = saturate(integer_sqrt(square as u128) as i128);
            Some(DrawObject::Circle { id, center: start, radius, color, width, filled: false })
        },
        Tool::Square => {
            let min = Point {
                x: if end.x < start.x { end.x } else { start.x },
                y: if end.y < start.y { end.y } else { start.y },
            };
            let max = Point {
                x: if end.x > start.x { end.x } else { start.x },
                y: if end.y > start.y { end.y } else { start.y },
            };
            Some(DrawObject::Rectangle { id, min, max, color, width, filled: false })
        },
        _ => None,
    }
}

/// What a click of the text tool did.
#[derive(Debug)]
pub enum TextClick {
    /// A formula was under the pointer; its text is taken up for editing.
    Existing { formula: String },
    /// A new, empty formula was placed.
    Created { id: u128 },
}

/// Gives the formula that `id` resolves to a new text and forgets its
/// rendered size. An identifier that resolves to no formula changes
/// nothing.
pub fn set_formula(objects: &mut Vec<DrawObject>, id: u128, text: String)
    requires
        scene_wf(old(objects).deep_view()),
    ensures
        final(objects).deep_view() == formula_set(old(objects).deep_view(), id, text@),
        scene_wf(final(objects).deep_view()),
{
    let ghost scene = objects.deep_view();
    if let Some(i) = find_object(objects, id) {
        assert(scene[i as int] == objects@[i as int]@);
        let replacement: Option<DrawObject> = match &objects[i] {
            DrawObject::LatexFormula { id, pos, color, .. } => Some(
                DrawObject::LatexFormula {
                    id: *id,
                    pos: *pos,
                    formula: text,
                    color: *color,
                    cached_size: None,
                },
            ),
            _ => None,
        };
        match replacement {
            Some(formula) => {
                objects.set(i, formula);
                assert(objects.deep_view() =~= scene.update(
                    i as int,
                    with_formula(scene[i as int], text@),
                ));
            },
            None => {
                assert(scene.update(i as int, with_formula(scene[i as int], text@)) =~= scene);
            },
        }
    }
}

/// Remembers the rendered size of the formula that `id` resolves to. An
/// identifier that resolves to no formula changes nothing.
pub fn set_cached_size(objects: &mut Vec<DrawObject>, id: u128, size: Size)
    requires
        scene_wf(old(objects).deep_view()),
        valid_length(size.width),
        valid_length(size.height),
    ensures
        final(objects).deep_view() == size_set(old(objects).deep_view(), id, size),
        scene_wf(final(objects).deep_view()),
{
    let ghost scene = objects.deep_view();
    if let Some(i) = find_object(objects, id) {
        assert(scene[i as int] == objects@[i as int]@);
        let replacement: Option<DrawObject> = match &objects[i] {
            DrawObject::LatexFormula { id, pos, formula, color, .. } => Some(
                DrawObject::LatexFormula {
                    id: *id,
                    pos: *pos,
                    formula: formula.clone(),
                    color: *color,
                    cached_size: Some(size),
                },
            ),
            _ => None,
        };
        match replacement {
            Some(formula) => {
                objects.set(i, formula);
                assert(objects.deep_view() =~= scene.update(
                    i as int,
                    with_size(scene[i as int], size),
                ));
            },
            None => {
                assert(scene.update(i as int, with_size(scene[i as int], size)) =~= scene);
            },
        }
    }
}

impl Whiteboard {
    /// See [`BoardModel::wf`].
    pub open spec fn wf(&self) -> bool {
        self@.wf()
    }

    /// Tests whether the whiteboard is well-formed.
    pub fn is_wf(&self) -> (ok: bool)
        ensures
            ok == self.wf(),
    {
        let start_ok: bool = match self.draw_start_pos {
            Some(p) => point_in_canvas(p),
            None => true,
        };
        let mut stroke_ok: bool = true;
        let mut i: usize = 0;
        while i < self.current_stroke.len()
            invariant
                i <= self.current_stroke.len(),
                stroke_ok == points_in_canvas(self.current_stroke@.take(i as int)),
            decreases self.current_stroke.len() - i,
        {
            let ghost before = self.current_stroke@.take(i as int);
            let ghost after = self.current_stroke@.take(i + 1);
            let inside: bool = point_in_canvas(self.current_stroke[i].pos);
            proof {
                assert(after[i as int] == self.current_stroke@[i as int]);
                assert forall|j: int| 0 <= j < i implies before[j] == after[j] by {}
                if stroke_ok && inside {
                    assert(points_in_canvas(after));
                } else if !inside {
                    assert(!after[i as int].pos.in_canvas());
                } else {
                    let j = choose|j: int| 0 <= j < before.len() && !before[j].pos.in_canvas();
                    assert(!after[j].pos.in_canvas());
                }
            }
            stroke_ok = stroke_ok && inside;
            i += 1;
        }
        assert(self.current_stroke@.take(self.current_stroke.len() as int)
            == self.current_stroke@);
        start_ok && stroke_ok && scene_is_wf(&self.objects) && self.undo_stack.is_wf()
            && self.selection.is_wf()
    }

    /// An empty whiteboard.
    pub fn new() -> (board: Whiteboard)
        ensures
            board@ == BoardModel::empty(),
            board.wf(),
    {
        let board = Whiteboard {
            objects: Vec::new(),
            undo_stack: History::new(),
            selection: SelectionState::new(),
            is_drawing: false,
            current_stroke: Vec::new(),
            draw_start_pos: None,
            editing_text: None,
        };
        assert(board.objects.deep_view() =~= Seq::<Shape>::empty());
        board
    }

    /// Pushes a snapshot of the scene onto the history.
    pub fn push_undo(&mut self)
        requires
            old(self).wf(),
        ensures
            final(self)@ == old(self)@.with_undo(),
            final(self).wf(),
    {
        self.undo_stack.push(&self.objects);
    }

    /// Goes back to the most recent snapshot. Says whether there was one.
    pub fn undo(&mut self) -> (changed: bool)
        requires
            old(self).wf(),
        ensures
            final(self)@ == old(self)@.undone(),
            changed == (old(self)@.undo_stack.len() > 0),
            final(self).wf(),
    {
        match self.undo_stack.pop() {
            Some(previous) => {
                assert(scene_wf(old(self)@.undo_stack.last()));
                self.objects = previous;
                true
            },
            None => false,
        }
    }

    /// The brush starts a stroke at `canvas_pos`.
    pub fn brush_drag_start(&mut self, canvas_pos: Point)
        requires
            old(self).wf(),
            canvas_pos.in_canvas(),
        ensures
            final(self)@ == old(self)@.stroke_started(canvas_pos),
            final(self).wf(),
    {
        self.is_drawing = true;
        let mut stroke: Vec<StrokePoint> = Vec::new();
        stroke.push(StrokePoint { pos: canvas_pos });
        self.current_stroke = stroke;
        assert(self.current_stroke@ =~= seq![StrokePoint { pos: canvas_pos }]);
    }

    /// The brush goes on to `canvas_pos`.
    pub fn brush_drag(&mut self, canvas_pos: Point)
        requires
            old(self).wf(),
            canvas_pos.in_canvas(),
        ensures
            final(self)@ == old(self)@.stroke_extended(canvas_pos),
            final(self).wf(),
    {
        if self.is_drawing {
            self.current_stroke.push(StrokePoint { pos: canvas_pos });
        }
    }

    /// The brush is lifted, and a stroke that counts gets the identifier
    /// `id`: see [`BoardModel::stroke_finished`].
    pub fn finish_stroke(&mut self, id: u128, color: [u8; 4], width: i64)
        requires
            old(self).wf(),
            valid_length(width),
        ensures
            final(self)@ == old(self)@.stroke_finished(id, color, width),
            final(self).wf(),
    {
        if self.is_drawing {
            if self.current_stroke.len() > 1 {
                self.push_undo();
                let points: Vec<StrokePoint> = smooth_stroke(self.current_stroke.as_slice());
                proof {
                    lemma_smoothed_in_canvas(self.current_stroke@);
                }
                let ghost before = self.objects.deep_view();
                let stroke = DrawObject::Stroke { id, points, color, width };
                let ghost shape = stroke@;
                self.objects.push(stroke);
                assert(self.objects.deep_view() =~= before.push(shape));
            }
            self.is_drawing = false;
            self.current_stroke.clear();
        }
    }

    /// The brush is lifted. A capture of more than one point becomes a
    /// stroke with a new identifier, which is returned.
    pub fn brush_drag_end(&mut self, color: [u8; 4], width: i64) -> (created: Option<u128>)
        requires
            old(self).wf(),
            valid_length(width),
        ensures
            match created {
                Some(id) => {
                    &&& old(self)@.stroke_counts()
                    &&& is_random_id(id)
                    &&& final(self)@ == old(self)@.stroke_finished(id, color, width)
                },
                None => {
                    &&& !old(self)@.stroke_counts()
                    &&& forall|id: u128|
                        final(self)@ == #[trigger] old(self)@.stroke_finished(id, color, width)
                },
            },
            final(self).wf(),
    {
        if self.is_drawing && self.current_stroke.len() > 1 {
            let id: u128 = fresh_id();
            self.finish_stroke(id, color, width);
            Some(id)
        } else {
            self.finish_stroke(0, color, width);
            None
        }
    }

    /// A shape tool starts its drag at `canvas_pos`.
    pub fn shape_drag_start(&mut self, canvas_pos: Point)
        requires
            old(self).wf(),
            canvas_pos.in_canvas(),
        ensures
            final(self)@ == (BoardModel { draw_start_pos: Some(canvas_pos), ..old(self)@ }),
            final(self).wf(),
    {
        self.draw_start_pos = Some(canvas_pos);
    }

    /// A shape tool ends its drag at `canvas_pos`, and the shape gets the
    /// identifier `id`: see [`BoardModel::shape_finished`].
    pub fn finish_shape(
        &mut self,
        tool: Tool,
        id: u128,
        canvas_pos: Point,
        color: [u8; 4],
        width: i64,
    )
        requires
            old(self).wf(),
            canvas_pos.in_canvas(),
            valid_length(width),
        ensures
            final(self)@ == old(self)@.shape_finished(tool, id, canvas_pos, color, width),
            final(self).wf(),
    {
        if let Some(start) = self.draw_start_pos {
            self.push_undo();
            if let Some(shape) = draw_shape(tool, id, start, canvas_pos, color, width) {
                let ghost before = self.objects.deep_view();
                let ghost drawn = shape@;
                self.objects.push(shape);
                assert(self.objects.deep_view() =~= before.push(drawn));
            }
            self.draw_start_pos = None;
        }
    }

    /// A shape tool ends its drag at `canvas_pos`. The shape gets a new
    /// identifier, which is returned; nothing is returned where no drag was
    /// under way.
    pub fn shape_drag_end(&mut self, tool: Tool, canvas_pos: Point, color: [u8; 4], width: i64) -> (id:
        Option<u128>)
        requires
            old(self).wf(),
            canvas_pos.in_canvas(),
            valid_length(width),
        ensures
            match id {
                Some(id) => {
                    &&& old(self)@.draw_start_pos.is_some()
                    &&& is_random_id(id)
                    &&& final(self)@ == old(self)@.shape_finished(tool, id, canvas_pos, color, width)
                },
                None => old(self)@.draw_start_pos.is_none() && final(self)@ == old(self)@,
            },
            final(self).wf(),
    {
        if self.draw_start_pos.is_some() {
            let id: u128 = fresh_id();
            self.finish_shape(tool, id, canvas_pos, color, width);
            Some(id)
        } else {
            None
        }
    }

    /// The eraser touches `canvas_pos`. Says whether anything was erased.
    pub fn erase_at(&mut self, canvas_pos: Point) -> (erased: bool)
        requires
            old(self).wf(),
        ensures
            final(self)@ == old(self)@.erased(canvas_pos),
            erased == hit_test(old(self)@.objects, canvas_pos).is_some(),
            final(self).wf(),
    {
        match find_object_at(&self.objects, canvas_pos) {
            Some(id) => {
                self.push_undo();
                remove_by_id(&mut self.objects, id);
                true
            },
            None => false,
        }
    }

    /// A drag of the select tool starts at `canvas_pos`.
    pub fn select_drag_start(&mut self, canvas_pos: Point, canvas_zoom: i64)
        requires
            old(self).wf(),
            canvas_pos.in_canvas(),
            canvas_zoom > 0,
        ensures
            final(self)@ == old(self)@.select_started(canvas_pos, canvas_zoom as int),
            final(self).wf(),
    {
        self.selection.drag_start(&self.objects, canvas_pos, canvas_zoom);
        match self.selection.mode {
            SelectionMode::Moving | SelectionMode::Scaling | SelectionMode::Rotating => {
                self.push_undo();
            },
            _ => {},
        }
    }

    /// The drag of the select tool goes on to `canvas_pos`.
    pub fn select_drag(&mut self, canvas_pos: Point)
        requires
            old(self).wf(),
            canvas_pos.in_canvas(),
        ensures
            final(self)@ == old(self)@.select_stepped(canvas_pos),
            final(self).wf(),
    {
        self.selection.drag_step(&mut self.objects, canvas_pos);
    }

    /// The drag of the select tool ends.
    pub fn select_drag_end(&mut self)
        requires
            old(self).wf(),
        ensures
            final(self)@ == old(self)@.select_ended(),
            final(self).wf(),
    {
        self.selection.drag_end(&self.objects);
    }

    /// The text tool clicks at `canvas_pos`, and a formula that it places
    /// gets the identifier `new_id`: see [`BoardModel::text_clicked`].
    /// Returns the text of the formula that was under the pointer.
    pub fn click_text(&mut self, new_id: u128, canvas_pos: Point, color: [u8; 4]) -> (text: Option<
        String,
    >)
        requires
            old(self).wf(),
            canvas_pos.in_canvas(),
        ensures
            final(self)@ == old(self)@.text_clicked(new_id, canvas_pos, color),
            match text {
                Some(formula) => formula_at(old(self)@.objects, canvas_pos) matches Some(i)
                    && old(self)@.objects[i] matches Shape::LatexFormula { formula: f, .. } && f
                    == formula@,
                None => formula_at(old(self)@.objects, canvas_pos).is_none(),
            },
            final(self).wf(),
    {
        let ghost scene = self.objects.deep_view();
        let mut existing: Option<String> = None;
        if let Some(id) = find_object_at(&self.objects, canvas_pos) {
            if let Some(i) = find_object(&self.objects, id) {
                assert(scene[i as int] == self.objects@[i as int]@);
                proof {
                    lemma_find_id(scene, id);
                }
                if let DrawObject::LatexFormula { formula, .. } = &self.objects[i] {
                    existing = Some(formula.clone());
                    self.editing_text = Some(id);
                }
            }
        }
        if existing.is_none() {
            self.push_undo();
            self.objects.push(
                DrawObject::LatexFormula {
                    id: new_id,
                    pos: canvas_pos,
                    formula: String::new(),
                    color,
                    cached_size: None,
                },
            );
            assert(self.objects.deep_view() =~= scene.push(
                Shape::LatexFormula {
                    id: new_id,
                    pos: canvas_pos,
                    formula: Seq::empty(),
                    color,
                    cached_size: None,
                },
            ));
            self.editing_text = Some(new_id);
        }
        existing
    }

    /// The text tool clicks at `canvas_pos`. A formula under the pointer is
    /// taken up for editing; elsewhere a new formula is placed.
    pub fn text_click(&mut self, canvas_pos: Point, color: [u8; 4]) -> (click: TextClick)
        requires
            old(self).wf(),
            canvas_pos.in_canvas(),
        ensures
            match click {
                TextClick::Existing { formula } => {
                    &&& formula_at(old(self)@.objects, canvas_pos) matches Some(i)
                    &&& old(self)@.objects[i] matches Shape::LatexFormula { formula: f, .. }
                    &&& f == formula@
                    &&& forall|id: u128|
                        final(self)@ == #[trigger] old(self)@.text_clicked(id, canvas_pos, color)
                },
                TextClick::Created { id } => {
                    &&& formula_at(old(self)@.objects, canvas_pos).is_none()
                    &&& is_random_id(id)
                    &&& final(self)@ == old(self)@.text_clicked(id, canvas_pos, color)
                },
            },
            final(self).wf(),
    {
        let id: u128 = fresh_id();
        match self.click_text(id, canvas_pos, color) {
            Some(formula) => TextClick::Existing { formula },
            None => TextClick::Created { id },
        }
    }

    /// The edited text is committed to its formula, and editing ends.
    pub fn commit_text(&mut self, text: String)
        requires
            old(self).wf(),
        ensures
            final(self)@ == old(self)@.text_committed(text@),
            final(self).wf(),
    {
        if let Some(id) = self.editing_text {
            set_formula(&mut self.objects, id, text);
            self.editing_text = None;
        }
    }

    /// Editing ends without a change.
    pub fn cancel_text(&mut self)
        ensures
            final(self)@ == (BoardModel { editing_text: None, ..old(self)@ }),
    {
        self.editing_text = None;
    }

    /// Places a formula with the identifier `id` on top of the scene.
    pub fn place_formula(&mut self, id: u128, pos: Point, formula: String, color: [u8; 4])
        requires
            old(self).wf(),
            pos.in_canvas(),
        ensures
            final(self)@ == old(self)@.formula_added(id, pos, formula@, color),
            final(self).wf(),
    {
        let ghost before = self.objects.deep_view();
        let ghost text = formula@;
        self.objects.push(DrawObject::LatexFormula { id, pos, formula, color, cached_size: None });
        assert(self.objects.deep_view() =~= before.push(
            Shape::LatexFormula { id, pos, formula: text, color, cached_size: None },
        ));
    }

    /// Places a formula with a new identifier, which is returned, on top of
    /// the scene.
    pub fn add_formula(&mut self, pos: Point, formula: String, color: [u8; 4]) -> (id: u128)
        requires
            old(self).wf(),
            pos.in_canvas(),
        ensures
            is_random_id(id),
            final(self)@ == old(self)@.formula_added(id, pos, formula@, color),
            final(self).wf(),
    {
        let id: u128 = fresh_id();
        self.place_formula(id, pos, formula, color);
        id
    }

    /// Remembers the rendered size of the formula `id`.
    pub fn cache_size(&mut self, id: u128, size: Size)
        requires
            old(self).wf(),
            valid_length(size.width),
            valid_length(size.height),
        ensures
            final(self)@ == old(self)@.size_cached(id, size),
            final(self).wf(),
    {
        set_cached_size(&mut self.objects, id, size);
    }

    /// Empties the scene, after a snapshot.
    pub fn clear_all(&mut self)
        requires
            old(self).wf(),
        ensures
            final(self)@ == old(self)@.cleared(),
            final(self).wf(),
    {
        self.push_undo();
        self.objects.clear();
        assert(self.objects.deep_view() =~= Seq::<Shape>::empty());
    }

    /// Replaces the scene by a loaded one.
    pub fn load(&mut self, state: WhiteboardState)
        requires
            old(self).wf(),
            scene_wf(state.objects.deep_view()),
        ensures
            final(self)@ == (BoardModel { objects: state.objects.deep_view(), ..old(self)@ }),
            final(self).wf(),
    {
        self.objects = state.objects;
    }

    /// A copy of the scene, to be saved.
    pub fn state(&self) -> (state: WhiteboardState)
        ensures
            state.objects.deep_view() == self@.objects,
    {
        WhiteboardState { objects: clone_scene(&self.objects) }
    }
}

} // verus!
