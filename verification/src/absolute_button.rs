//! Per-node interaction state and the absolute hit-test pass.
//!
//! [`AbsoluteInteraction`] is recomputed every frame from raw pointer
//! geometry and bypasses occlusion; [`Interaction`] is the host's normal
//! occlusion-based state, written into the model by the host each frame.

use vstd::prelude::*;

use crate::geometry::{contains_point, Vec2i};
use crate::scene::{Node, Scene};

verus! {

/// The host's normal, occlusion-based interaction state for a node.
#[derive(Clone, Copy, PartialEq, Eq, Structural, Debug)]
pub enum Interaction {
    Idle,
    Pressed,
    Hovered,
}

/// Interaction state computed from raw pointer-vs-bounds geometry,
/// ignoring the normal occlusion and blocking rules.
#[derive(Clone, Copy, PartialEq, Eq, Structural, Debug)]
pub enum AbsoluteInteraction {
    Idle,
    Pressed,
    Hovered,
}

impl AbsoluteInteraction {
    /// True when no interaction is registered.
    pub fn none(&self) -> (r: bool)
        ensures
            r == (*self == AbsoluteInteraction::Idle),
    {
        *self == AbsoluteInteraction::Idle
    }

    /// True when the pointer is inside the bounds and the primary button is held.
    pub fn pressed(&self) -> (r: bool)
        ensures
            r == (*self == AbsoluteInteraction::Pressed),
    {
        *self == AbsoluteInteraction::Pressed
    }

    /// True when the pointer is inside the bounds and the primary button is up.
    pub fn hovered(&self) -> (r: bool)
        ensures
            r == (*self == AbsoluteInteraction::Hovered),
    {
        *self == AbsoluteInteraction::Hovered
    }
}

/// The state the absolute hit test assigns to a node this frame.
pub open spec fn hit_state(cursor: Vec2i, n: Node, left_pressed: bool) -> AbsoluteInteraction {
    if contains_point(cursor, n.translation, n.size) {
        if left_pressed {
            AbsoluteInteraction::Pressed
        } else {
            AbsoluteInteraction::Hovered
        }
    } else {
        AbsoluteInteraction::Idle
    }
}

/// One node after the absolute hit-test pass: only hit-tested live nodes
/// are visited, and the change flag records whether the state moved.
pub open spec fn hit_node(cursor: Vec2i, n: Node, left_pressed: bool) -> Node {
    if n.alive && n.hit_test {
        let next = hit_state(cursor, n, left_pressed);
        Node { absolute: next, absolute_changed: next != n.absolute, ..n }
    } else {
        n
    }
}

/// The whole node store after the absolute hit-test pass. With no pointer
/// position the pass is skipped and the last state persists.
pub open spec fn hit_frame(nodes: Seq<Node>, cursor: Option<Vec2i>, left_pressed: bool) -> Seq<
    Node,
> {
    match cursor {
        Some(c) => Seq::new(nodes.len(), |i: int| hit_node(c, nodes[i], left_pressed)),
        None => nodes,
    }
}

impl Scene {
    /// The absolute hit-test pass: for every live, hit-tested node, set the
    /// absolute interaction from the pointer position and the primary button,
    /// recording in the change flag whether the state actually moved.
    pub fn absolute_interaction(&mut self, cursor_position: Option<Vec2i>, left_pressed: bool)
        requires
            old(self).wf(),
        ensures
            final(self).wf(),
            final(self).nodes@ == hit_frame(old(self).nodes@, cursor_position, left_pressed),
            final(self).option_lists == old(self).option_lists,
            final(self).next_order == old(self).next_order,
    {
        let c = match cursor_position {
            Some(c) => c,
            None => {
                assert(self.nodes@ == hit_frame(self.nodes@, cursor_position, left_pressed));
                return ;
            },
        };
        let ghost orig = *self;
        let n = self.nodes.len();
        let mut i: usize = 0;
        while i < n
            invariant
                n == orig.nodes@.len(),
                self.nodes@.len() == n,
                i <= n,
                self.option_lists == orig.option_lists,
                self.next_order == orig.next_order,
                forall|m: int| 0 <= m < i ==> self.nodes@[m] == hit_node(c, orig.nodes@[m], left_pressed),
                forall|m: int| i <= m < n ==> self.nodes@[m] == orig.nodes@[m],
                orig.wf(),
            decreases n - i,
        {
            let nd = self.nodes[i];
            if nd.alive && nd.hit_test {
                let contained = crate::geometry::ab_point_intersect(c, nd.translation, nd.size);
                let next = if contained {
                    if left_pressed {
                        AbsoluteInteraction::Pressed
                    } else {
                        AbsoluteInteraction::Hovered
                    }
                } else {
                    AbsoluteInteraction::Idle
                };
                let changed = next != nd.absolute;
                self.nodes[i] = Node { absolute: next, absolute_changed: changed, ..nd };
            }
            i = i + 1;
        }
        assert(self.nodes@ =~= hit_frame(orig.nodes@, cursor_position, left_pressed));
        proof {
            orig.lemma_wf_skeleton_preserved(*self);
        }
    }
}

/// Idempotent interaction: running the hit-test pass twice with the same
/// pointer position and button state leaves every visited node's state where
/// the first pass put it and raises no second change notification; nodes the
/// pass does not visit are untouched either time.
pub proof fn lemma_hit_idempotent(nodes: Seq<Node>, c: Vec2i, left_pressed: bool)
    ensures
        ({
            let once = hit_frame(nodes, Some(c), left_pressed);
            let twice = hit_frame(once, Some(c), left_pressed);
            &&& twice.len() == once.len()
            &&& forall|i: int|
                0 <= i < once.len() && nodes[i].alive && nodes[i].hit_test ==> {
                    &&& (#[trigger] twice[i]).absolute == once[i].absolute
                    &&& !twice[i].absolute_changed
                }
            &&& forall|i: int|
                0 <= i < once.len() && !(nodes[i].alive && nodes[i].hit_test) ==> #[trigger] twice[i]
                    == nodes[i]
        }),
{
}

} // verus!
