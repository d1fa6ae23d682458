//! The bounded undo history.

use crate::models::{clone_scene, DrawObject, Shape};
use crate::selection::{scene_is_wf, scene_wf};
use vstd::prelude::*;

verus! {

/// The most snapshots that a history keeps.
pub const HISTORY_LIMIT: usize = 50;

/// A stack of whole-scene snapshots, the most recent last.
#[derive(Debug)]
pub struct History {
    pub snapshots: Vec<Vec<DrawObject>>,
}

impl View for History {
    type V = Seq<Seq<Shape>>;

    open spec fn view(&self) -> Seq<Seq<Shape>> {
        self.snapshots.deep_view()
    }
}

/// The stack after a push: a full stack drops its oldest snapshot first.
pub open spec fn pushed(stack: Seq<Seq<Shape>>, scene: Seq<Shape>) -> Seq<Seq<Shape>> {
    if stack.len() >= HISTORY_LIMIT {
        stack.drop_first().push(scene)
    } else {
        stack.push(scene)
    }
}

/// The stack after the pushes of `scenes`, in order.
pub open spec fn pushed_all(stack: Seq<Seq<Shape>>, scenes: Seq<Seq<Shape>>) -> Seq<Seq<Shape>>
    decreases scenes.len(),
{
    if scenes.len() == 0 {
        stack
    } else {
        pushed(pushed_all(stack, scenes.drop_last()), scenes.last())
    }
}

/// The history is bounded and keeps the latest: after any number of pushes
/// onto an empty history it holds the last [`HISTORY_LIMIT`] snapshots that
/// were pushed, or all of them if they were fewer, in the order of the
/// pushes.
pub proof fn lemma_history_keeps_latest(scenes: Seq<Seq<Shape>>)
    ensures
        pushed_all(Seq::empty(), scenes) == if scenes.len() <= HISTORY_LIMIT {
            scenes
        } else {
            scenes.subrange(scenes.len() - HISTORY_LIMIT, scenes.len() as int)
        },
    decreases scenes.len(),
{
    let limit = HISTORY_LIMIT as int;
    if scenes.len() > 0 {
        let rest = scenes.drop_last();
        lemma_history_keeps_latest(rest);
        let before = pushed_all(Seq::empty(), rest);
        if scenes.len() <= limit {
            assert(before.push(scenes.last()) =~= scenes);
        } else if rest.len() <= limit {
            assert(before.drop_first().push(scenes.last()) =~= scenes.subrange(
                scenes.len() - limit,
                scenes.len() as int,
            ));
        } else {
            assert(before.drop_first().push(scenes.last()) =~= scenes.subrange(
                scenes.len() - limit,
                scenes.len() as int,
            ));
        }
    } else {
        assert(pushed_all(Seq::empty(), scenes) =~= scenes);
    }
}

impl History {
    /// No more than [`HISTORY_LIMIT`] snapshots are kept.
    pub open spec fn wf(&self) -> bool {
        self@.len() <= HISTORY_LIMIT
    }

    /// Every object of every snapshot is well-formed.
    pub open spec fn scenes_wf(&self) -> bool {
        forall|i: int| 0 <= i < self@.len() ==> scene_wf(#[trigger] self@[i])
    }

    /// Tests whether the history is within its limit and every object of
    /// every snapshot is well-formed.
    pub fn is_wf(&self) -> (ok: bool)
        ensures
            ok == (self.wf() && self.scenes_wf()),
    {
        if self.snapshots.len() > HISTORY_LIMIT {
            return false;
        }
        let mut i: usize = 0;
        while i < self.snapshots.len()
            invariant
                i <= self.snapshots.len(),
                forall|j: int| 0 <= j < i ==> scene_wf(#[trigger] self@[j]),
            decreases self.snapshots.len() - i,
        {
            assert(self@[i as int] == self.snapshots@[i as int].deep_view());
            if !scene_is_wf(&self.snapshots[i]) {
                return false;
            }
            i += 1;
        }
        true
    }

    /// An empty history.
    pub fn new() -> (h: History)
        ensures
            h@ == Seq::<Seq<Shape>>::empty(),
            h.wf(),
    {
        let h = History { snapshots: Vec::new() };
        assert(h@ =~= Seq::<Seq<Shape>>::empty());
        h
    }

    /// The number of snapshots.
    pub fn len(&self) -> (n: usize)
        ensures
            n == self@.len(),
    {
        self.snapshots.len()
    }

    /// Pushes a copy of `scene`. A history that is full drops its oldest
    /// snapshot first.
    pub fn push(&mut self, scene: &Vec<DrawObject>)
        ensures
            final(self)@ == pushed(old(self)@, scene.deep_view()),
            old(self).wf() ==> final(self).wf(),
    {
        let ghost before = self@;
        if self.snapshots.len() >= HISTORY_LIMIT {
            self.snapshots.remove(0);
            assert(self@ =~= before.drop_first());
        }
        let ghost kept = self@;
        self.snapshots.push(clone_scene(scene));
        assert(self@ =~= kept.push(scene.deep_view()));
    }

    /// Takes the most recent snapshot off the history.
    pub fn pop(&mut self) -> (scene: Option<Vec<DrawObject>>)
        ensures
            match scene {
                Some(scene) => {
                    &&& old(self)@.len() > 0
                    &&& scene.deep_view() == old(self)@.last()
                    &&& final(self)@ == old(self)@.drop_last()
                },
                None => old(self)@.len() == 0 && final(self)@ == old(self)@,
            },
            old(self).wf() ==> final(self).wf(),
    {
        let ghost before = self@;
        let scene = self.snapshots.pop();
        assert(scene.is_some() ==> self@ =~= before.drop_last());
        scene
    }
}

} // verus!
