//! Window construction and the per-frame window passes: z-order promotion,
//! drag-to-move, and closing via ancestor search.

use vstd::prelude::*;

use crate::absolute_button::{AbsoluteInteraction, Interaction};
use crate::geometry::{sat_add64, saturating_add_i64, Vec2i};
use crate::scene::{in_subtree, lemma_in_subtree_congruent, Node, Scene, Style, Val};

verus! {

/// The action a generic control carries.
#[derive(Clone, Copy, PartialEq, Eq, Structural, Debug)]
pub enum UiButtonAction {
    Nothing,
    CloseWindow,
}

impl UiButtonAction {
    /// True when pressing the control closes its window.
    pub fn is_close_window(&self) -> (r: bool)
        ensures
            r == (*self == UiButtonAction::CloseWindow),
    {
        *self == UiButtonAction::CloseWindow
    }
}

/// A live window node eligible for z-order promotion: it carries the window
/// marker, a layout box, a parent, and the pointer hovers it this frame.
pub open spec fn window_hovered(nodes: Seq<Node>, b: int) -> bool {
    &&& 0 <= b < nodes.len()
    &&& nodes[b].alive
    &&& nodes[b].ui_window
    &&& nodes[b].styled
    &&& nodes[b].parent is Some
    &&& nodes[b].absolute == AbsoluteInteraction::Hovered
}

/// The promotion scan over the first `i` slots: keep the running best
/// stacking index and its node. A strictly greater index replaces the best;
/// a best of 0 counts as unset, so any later hovered window replaces it.
pub open spec fn promote_scan(nodes: Seq<Node>, i: int) -> (u32, Option<int>)
    decreases i,
{
    if i <= 0 {
        (0u32, None::<int>)
    } else {
        let prev = promote_scan(nodes, i - 1);
        let b = i - 1;
        if window_hovered(nodes, b) && (nodes[b].stack_index > prev.0 || prev.0 == 0) {
            (nodes[b].stack_index, Some(b))
        } else {
            prev
        }
    }
}

/// The window a primary-button press promotes, if any.
pub open spec fn promote_target(nodes: Seq<Node>) -> Option<int> {
    promote_scan(nodes, nodes.len() as int).1
}

impl Scene {
    /// Z-order promotion: on a primary-button press (edge-triggered), bring
    /// the hovered window with the best stacking index to the front of its
    /// sibling group by granting it the next render order. At most one window
    /// is promoted per press, and nothing else changes.
    pub fn window_sorting(&mut self, left_just_pressed: bool)
        requires
            old(self).wf(),
            old(self).next_order < u64::MAX,
        ensures
            final(self).wf(),
            final(self).option_lists == old(self).option_lists,
            !left_just_pressed ==> *final(self) == *old(self),
            left_just_pressed && promote_target(old(self).nodes@) is None ==> *final(self) == *old(
                self,
            ),
            left_just_pressed && promote_target(old(self).nodes@) is Some ==> {
                let e = promote_target(old(self).nodes@)->Some_0;
                &&& final(self).nodes@ == old(self).nodes@.update(
                    e,
                    Node { order: old(self).next_order, ..old(self).nodes@[e] },
                )
                &&& final(self).next_order == old(self).next_order + 1
            },
    {
        if !left_just_pressed {
            return ;
        }
        let n = self.nodes.len();
        let mut priority: u32 = 0;
        let mut target: Option<usize> = None;
        let mut b: usize = 0;
        while b < n
            invariant
                n == self.nodes@.len(),
                b <= n,
                promote_scan(self.nodes@, b as int) == (
                    priority,
                    match target {
                        Some(t) => Some(t as int),
                        None => None::<int>,
                    },
                ),
                match target {
                    Some(t) => t < n,
                    None => true,
                },
            decreases n - b,
        {
            let nd = self.nodes[b];
            if nd.alive && nd.ui_window && nd.styled && nd.parent.is_some() && nd.absolute
                == AbsoluteInteraction::Hovered && (nd.stack_index > priority || priority == 0) {
                priority = nd.stack_index;
                target = Some(b);
            }
            b = b + 1;
        }
        match target {
            Some(e) => {
                let nd = self.nodes[e];
                self.nodes[e] = Node { order: self.next_order, ..nd };
                self.next_order = self.next_order + 1;
                proof {
                    let s = *self;
                    let o = *old(self);
                    assert forall|i: int| 0 <= i < s.nodes@.len() implies #[trigger] s.node_wf(i) by {
                        assert(o.node_wf(i));
                        if i != e {
                            assert(s.nodes@[i] == o.nodes@[i]);
                        }
                    }
                    assert forall|i: int, j: int|
                        0 <= i < s.nodes@.len() && 0 <= j < s.nodes@.len() && i != j
                            && s.nodes@[i].alive && s.nodes@[j].alive implies #[trigger] s.nodes@[i].order
                        != #[trigger] s.nodes@[j].order by {
                        if i != e && j != e {
                            assert(s.nodes@[i] == o.nodes@[i]);
                            assert(s.nodes@[j] == o.nodes@[j]);
                        } else if i == e {
                            assert(s.nodes@[j] == o.nodes@[j]);
                            assert(o.node_wf(j));
                        } else {
                            assert(s.nodes@[i] == o.nodes@[i]);
                            assert(o.node_wf(i));
                        }
                    }
                }
            },
            None => {},
        }
    }
}

/// What the promotion scan finds: if nothing is hovered it finds nothing;
/// otherwise it names a hovered window, and when any hovered window has a
/// positive stacking index the found one carries the greatest index and is
/// the first to carry it.
pub proof fn lemma_promote_scan(nodes: Seq<Node>, i: int)
    requires
        0 <= i <= nodes.len(),
    ensures
        ({
            let scan = promote_scan(nodes, i);
            &&& scan.1 is None ==> scan.0 == 0 && (forall|b: int|
                0 <= b < i ==> !window_hovered(nodes, b))
            &&& scan.1 matches Some(e) ==> {
                &&& 0 <= e < i
                &&& window_hovered(nodes, e)
                &&& nodes[e].stack_index == scan.0
                &&& scan.0 > 0 ==> (forall|b: int|
                    0 <= b < i && window_hovered(nodes, b) ==> nodes[b].stack_index <= scan.0)
                    && (forall|b: int|
                    0 <= b < e && window_hovered(nodes, b) ==> nodes[b].stack_index < scan.0)
                &&& scan.0 == 0 ==> (forall|b: int|
                    0 <= b < i && window_hovered(nodes, b) ==> nodes[b].stack_index == 0 && b <= e)
            }
        }),
    decreases i,
{
    if i > 0 {
        lemma_promote_scan(nodes, i - 1);
    }
}

/// Single promotion per press: when some hovered window has a positive
/// stacking index, the press selects exactly one window; it is hovered, no
/// hovered window ranks above it, and every earlier hovered window ranks
/// strictly below it.
pub proof fn lemma_single_promotion(nodes: Seq<Node>, w: int)
    requires
        window_hovered(nodes, w),
        nodes[w].stack_index > 0,
    ensures
        promote_target(nodes) is Some,
        ({
            let e = promote_target(nodes)->Some_0;
            &&& window_hovered(nodes, e)
            &&& forall|b: int|
                0 <= b < nodes.len() && window_hovered(nodes, b) ==> nodes[b].stack_index
                    <= nodes[e].stack_index
            &&& forall|b: int|
                0 <= b < e && window_hovered(nodes, b) ==> nodes[b].stack_index
                    < nodes[e].stack_index
        }),
{
    lemma_promote_scan(nodes, nodes.len() as int);
}

/// The nearest window ancestor found by walking up from slot `i`: a window
/// stops the walk; the walk continues through styled nodes that carry no
/// control; anything else ends it with no result.
pub open spec fn window_ancestor_from(nodes: Seq<Node>, i: int) -> Option<int>
    decreases i,
{
    if 0 <= i < nodes.len() {
        let n = nodes[i];
        if n.ui_window {
            Some(i)
        } else if n.styled && n.button_action is None {
            match n.parent {
                Some(p) => {
                    if (p as int) < i {
                        window_ancestor_from(nodes, p as int)
                    } else {
                        None
                    }
                },
                None => None,
            }
        } else {
            None
        }
    } else {
        None
    }
}

/// A control whose press closes a window this frame: live, its interaction
/// just changed to pressed, and it carries the close action.
pub open spec fn close_triggered(nodes: Seq<Node>, b: int) -> bool {
    &&& 0 <= b < nodes.len()
    &&& nodes[b].alive
    &&& nodes[b].interaction_changed
    &&& nodes[b].interaction == Interaction::Pressed
    &&& nodes[b].button_action == Some(UiButtonAction::CloseWindow)
}

/// The window a triggered control closes: the nearest window ancestor of
/// its parent, if the walk finds one.
pub open spec fn close_root(nodes: Seq<Node>, b: int) -> Option<int> {
    if close_triggered(nodes, b) {
        match nodes[b].parent {
            Some(p) => window_ancestor_from(nodes, p as int),
            None => None,
        }
    } else {
        None
    }
}

/// Slot `j` falls this frame because of control `b`.
pub open spec fn closed_by(nodes: Seq<Node>, b: int, j: int) -> bool {
    match close_root(nodes, b) {
        Some(w) => in_subtree(nodes, w, j),
        None => false,
    }
}

/// Slot `j` falls this frame: some triggered control closes a window whose
/// subtree contains it.
pub open spec fn closed_node(nodes: Seq<Node>, j: int) -> bool {
    exists|b: int| #[trigger] closed_by(nodes, b, j)
}

impl Scene {
    /// Walk up from slot `start` to the nearest window ancestor.
    pub fn find_window_ancestor(&self, start: usize) -> (r: Option<usize>)
        requires
            start < self.nodes@.len(),
        ensures
            match r {
                Some(w) => w < self.nodes@.len() && window_ancestor_from(self.nodes@, start as int)
                    == Some(w as int),
                None => window_ancestor_from(self.nodes@, start as int) is None,
            },
    {
        let mut cur = start;
        loop
            invariant
                cur < self.nodes@.len(),
                window_ancestor_from(self.nodes@, start as int) == window_ancestor_from(
                    self.nodes@,
                    cur as int,
                ),
            decreases cur,
        {
            let nd = self.nodes[cur];
            if nd.ui_window {
                return Some(cur);
            }
            if nd.styled && nd.button_action.is_none() {
                match nd.parent {
                    Some(p) => {
                        if p < cur {
                            cur = p;
                        } else {
                            return None;
                        }
                    },
                    None => {
                        return None;
                    },
                }
            } else {
                return None;
            }
        }
    }

    /// The window closer: for every control whose interaction just changed to
    /// pressed and whose action is close-window, find the nearest window
    /// ancestor of its parent and despawn that window with its entire
    /// subtree. Controls and walks are judged against the frame-start
    /// snapshot, so a close does not hide a second one fired the same frame.
    pub fn close_window(&mut self)
        requires
            old(self).wf(),
        ensures
            final(self).wf(),
            final(self).nodes@.len() == old(self).nodes@.len(),
            forall|j: int|
                0 <= j < old(self).nodes@.len() ==> final(self).nodes@[j] == (Node {
                    alive: old(self).nodes@[j].alive && !closed_node(old(self).nodes@, j),
                    ..old(self).nodes@[j]
                }),
            final(self).option_lists == old(self).option_lists,
            final(self).next_order == old(self).next_order,
    {
        let ghost orig = *self;
        let n = self.nodes.len();
        let mut roots: Vec<usize> = Vec::new();
        let ghost mut sources: Seq<int> = Seq::empty();
        let mut b: usize = 0;
        while b < n
            invariant
                *self == orig,
                orig.wf(),
                n == orig.nodes@.len(),
                b <= n,
                roots@.len() == sources.len(),
                forall|k: int|
                    0 <= k < sources.len() ==> close_root(orig.nodes@, #[trigger] sources[k])
                        == Some(roots@[k] as int),
                forall|k: int| 0 <= k < roots@.len() ==> #[trigger] roots@[k] < n,
                forall|bb: int|
                    0 <= bb < b && #[trigger] close_root(orig.nodes@, bb) is Some ==> exists|k: int|
                        0 <= k < sources.len() && sources[k] == bb,
            decreases n - b,
        {
            let ghost sources0 = sources;
            let nd = self.nodes[b];
            if nd.alive && nd.interaction_changed && nd.interaction == Interaction::Pressed
                && matches!(nd.button_action, Some(UiButtonAction::CloseWindow)) {
                match nd.parent {
                    Some(p) => {
                        proof {
                            assert(orig.node_wf(b as int));
                        }
                        match self.find_window_ancestor(p) {
                            Some(w) => {
                                roots.push(w);
                                proof {
                                    sources = sources.push(b as int);
                                }
                            },
                            None => {
                                proof {
                                    assert(close_root(orig.nodes@, b as int) is None);
                                }
                            },
                        }
                    },
                    None => {
                        proof {
                            assert(close_root(orig.nodes@, b as int) is None);
                        }
                    },
                }
            } else {
                proof {
                    assert(!close_triggered(orig.nodes@, b as int));
                    assert(close_root(orig.nodes@, b as int) is None);
                }
            }
            proof {
                assert forall|bb: int|
                    0 <= bb < b + 1 && #[trigger] close_root(orig.nodes@, bb) is Some implies exists|k: int|
                    0 <= k < sources.len() && sources[k] == bb by {
                    if bb < b {
                        let k = choose|k: int| 0 <= k < sources0.len() && sources0[k] == bb;
                        assert(sources[k] == bb);
                    } else {
                        assert(sources[sources.len() - 1] == bb);
                    }
                }
            }
            b = b + 1;
        }
        let ghost m = roots@.len() as int;
        let mut t: usize = 0;
        while t < roots.len()
            invariant
                self.wf(),
                self.nodes@.len() == n,
                n == orig.nodes@.len(),
                t <= roots@.len(),
                self.option_lists == orig.option_lists,
                self.next_order == orig.next_order,
                roots@.len() == sources.len(),
                forall|k: int|
                    0 <= k < sources.len() ==> close_root(orig.nodes@, #[trigger] sources[k])
                        == Some(roots@[k] as int),
                forall|k: int| 0 <= k < roots@.len() ==> #[trigger] roots@[k] < n,
                forall|bb: int|
                    0 <= bb < n && #[trigger] close_root(orig.nodes@, bb) is Some ==> exists|k: int|
                        0 <= k < sources.len() && sources[k] == bb,
                forall|j: int|
                    0 <= j < n ==> self.nodes@[j] == (Node {
                        alive: orig.nodes@[j].alive && !(exists|k: int|
                            0 <= k < t && in_subtree(orig.nodes@, #[trigger] roots@[k] as int, j)),
                        ..orig.nodes@[j]
                    }),
            decreases roots@.len() - t,
        {
            let w = roots[t];
            let ghost pre = *self;
            self.despawn_subtree(w);
            proof {
                assert forall|j: int| 0 <= j < n implies self.nodes@[j] == (Node {
                    alive: orig.nodes@[j].alive && !(exists|k: int|
                        0 <= k < t + 1 && in_subtree(orig.nodes@, #[trigger] roots@[k] as int, j)),
                    ..orig.nodes@[j]
                }) by {
                    lemma_in_subtree_congruent(pre.nodes@, orig.nodes@, w as int, j);
                    let felled_now = in_subtree(orig.nodes@, w as int, j);
                    let felled_before = exists|k: int|
                        0 <= k < t && in_subtree(orig.nodes@, #[trigger] roots@[k] as int, j);
                    if felled_before {
                        let k = choose|k: int|
                            0 <= k < t && in_subtree(orig.nodes@, #[trigger] roots@[k] as int, j);
                        assert(0 <= k < t + 1 && in_subtree(orig.nodes@, roots@[k] as int, j));
                    }
                    if felled_now {
                        assert(0 <= t < t + 1 && in_subtree(orig.nodes@, roots@[t as int] as int, j));
                    }
                    if !felled_before && !felled_now {
                        assert forall|k: int|
                            0 <= k < t + 1 implies !in_subtree(
                            orig.nodes@,
                            #[trigger] roots@[k] as int,
                            j,
                        ) by {
                            if k < t {
                                assert(!(exists|kk: int|
                                    0 <= kk < t && in_subtree(
                                        orig.nodes@,
                                        #[trigger] roots@[kk] as int,
                                        j,
                                    )));
                            }
                        }
                    }
                }
            }
            t = t + 1;
        }
        proof {
            assert forall|j: int| 0 <= j < n implies (exists|k: int|
                0 <= k < m && in_subtree(orig.nodes@, #[trigger] roots@[k] as int, j))
                == closed_node(orig.nodes@, j) by {
                if exists|k: int| 0 <= k < m && in_subtree(orig.nodes@, #[trigger] roots@[k] as int, j) {
                    let k = choose|k: int|
                        0 <= k < m && in_subtree(orig.nodes@, #[trigger] roots@[k] as int, j);
                    assert(close_root(orig.nodes@, sources[k]) == Some(roots@[k] as int));
                    assert(closed_by(orig.nodes@, sources[k], j));
                }
                if closed_node(orig.nodes@, j) {
                    let bb = choose|bb: int| #[trigger] closed_by(orig.nodes@, bb, j);
                    assert(close_root(orig.nodes@, bb) is Some);
                    let k = choose|k: int| 0 <= k < sources.len() && sources[k] == bb;
                    assert(in_subtree(orig.nodes@, roots@[k] as int, j));
                }
            }
        }
    }
}

/// Closing despawns exactly the subtree: when a single control fires and its
/// walk finds window `w`, precisely the nodes inside `w`'s subtree fall and
/// every node outside it is untouched.
pub proof fn lemma_close_exact_subtree(pre: Scene, post: Scene, b: int, w: int)
    requires
        pre.nodes@.len() == post.nodes@.len(),
        close_root(pre.nodes@, b) == Some(w),
        forall|b2: int| b2 != b ==> close_root(pre.nodes@, b2) is None,
        forall|j: int|
            0 <= j < pre.nodes@.len() ==> post.nodes@[j] == (Node {
                alive: pre.nodes@[j].alive && !closed_node(pre.nodes@, j),
                ..pre.nodes@[j]
            }),
    ensures
        forall|j: int|
            0 <= j < pre.nodes@.len() && in_subtree(pre.nodes@, w, j) ==> !(
            #[trigger] post.nodes@[j]).alive,
        forall|j: int|
            0 <= j < pre.nodes@.len() && !in_subtree(pre.nodes@, w, j) ==> #[trigger] post.nodes@[j]
                == pre.nodes@[j],
{
    assert forall|j: int| 0 <= j < pre.nodes@.len() implies closed_node(pre.nodes@, j)
        == in_subtree(pre.nodes@, w, j) by {
        if in_subtree(pre.nodes@, w, j) {
            assert(closed_by(pre.nodes@, b, j));
        }
        if closed_node(pre.nodes@, j) {
            let bb = choose|bb: int| #[trigger] closed_by(pre.nodes@, bb, j);
            assert(bb == b);
        }
    }
}

/// A live title bar the pointer is holding down this frame.
pub open spec fn drag_triggered(nodes: Seq<Node>, b: int) -> bool {
    &&& 0 <= b < nodes.len()
    &&& nodes[b].alive
    &&& nodes[b].ui_window_bar
    &&& !nodes[b].ui_window
    &&& nodes[b].interaction == Interaction::Pressed
}

/// The node a drag moves, found by walking up from slot `i`: the first
/// styled non-bar ancestor stops the walk (it is the drag target whether or
/// not it is positioned); styled non-window nodes are walked through;
/// anything else ends the walk with no result.
pub open spec fn drag_target_from(nodes: Seq<Node>, i: int) -> Option<int>
    decreases i,
{
    if 0 <= i < nodes.len() {
        let n = nodes[i];
        if n.styled && !n.ui_window_bar {
            Some(i)
        } else if n.styled && !n.ui_window {
            match n.parent {
                Some(p) => {
                    if (p as int) < i {
                        drag_target_from(nodes, p as int)
                    } else {
                        None
                    }
                },
                None => None,
            }
        } else {
            None
        }
    } else {
        None
    }
}

/// One bar's contribution to a drag frame: if the bar is held, walk to its
/// drag target and, when that target has absolute pixel top and left,
/// translate them by the pointer velocity.
pub open spec fn drag_moved(nodes: Seq<Node>, v: Vec2i, b: int) -> Seq<Node> {
    if drag_triggered(nodes, b) {
        match nodes[b].parent {
            Some(p) => match drag_target_from(nodes, p as int) {
                Some(t) => {
                    let n = nodes[t];
                    match n.style.top {
                        Val::Px(top) => match n.style.left {
                            Val::Px(left) => nodes.update(
                                t,
                                Node {
                                    style: Style {
                                        top: Val::Px(sat_add64(top, v.y)),
                                        left: Val::Px(sat_add64(left, v.x)),
                                        ..n.style
                                    },
                                    ..n
                                },
                            ),
                            _ => nodes,
                        },
                        _ => nodes,
                    }
                },
                None => nodes,
            },
            None => nodes,
        }
    } else {
        nodes
    }
}

/// A whole drag frame: every bar's contribution, in slot order.
pub open spec fn drag_frame(nodes: Seq<Node>, v: Vec2i, upto: int) -> Seq<Node>
    decreases upto,
{
    if upto <= 0 {
        nodes
    } else {
        drag_moved(drag_frame(nodes, v, upto - 1), v, upto - 1)
    }
}

/// A found drag target is a valid slot.
pub proof fn lemma_drag_target_range(nodes: Seq<Node>, i: int)
    ensures
        drag_target_from(nodes, i) matches Some(t) ==> 0 <= t < nodes.len(),
    decreases i,
{
    if 0 <= i < nodes.len() {
        match nodes[i].parent {
            Some(p) => {
                if (p as int) < i {
                    lemma_drag_target_range(nodes, p as int);
                }
            },
            None => {},
        }
    }
}

/// One drag step changes styles only: every node keeps all its other fields.
pub proof fn lemma_drag_moved_skeleton(nodes: Seq<Node>, v: Vec2i, b: int)
    ensures
        drag_moved(nodes, v, b).len() == nodes.len(),
        forall|j: int|
            0 <= j < nodes.len() ==> #[trigger] drag_moved(nodes, v, b)[j] == (Node {
                style: drag_moved(nodes, v, b)[j].style,
                ..nodes[j]
            }),
{
    if drag_triggered(nodes, b) {
        match nodes[b].parent {
            Some(p) => {
                lemma_drag_target_range(nodes, p as int);
            },
            None => {},
        }
    }
}

/// A whole drag frame changes styles only.
pub proof fn lemma_drag_frame_skeleton(nodes: Seq<Node>, v: Vec2i, upto: int)
    ensures
        drag_frame(nodes, v, upto).len() == nodes.len(),
        forall|j: int|
            0 <= j < nodes.len() ==> #[trigger] drag_frame(nodes, v, upto)[j] == (Node {
                style: drag_frame(nodes, v, upto)[j].style,
                ..nodes[j]
            }),
    decreases upto,
{
    if upto > 0 {
        lemma_drag_frame_skeleton(nodes, v, upto - 1);
        lemma_drag_moved_skeleton(drag_frame(nodes, v, upto - 1), v, upto - 1);
    }
}

impl Scene {
    /// Walk up from slot `start` to the node a drag would move.
    pub fn find_drag_target(&self, start: usize) -> (r: Option<usize>)
        requires
            start < self.nodes@.len(),
        ensures
            match r {
                Some(t) => t < self.nodes@.len() && drag_target_from(self.nodes@, start as int)
                    == Some(t as int),
                None => drag_target_from(self.nodes@, start as int) is None,
            },
    {
        let mut cur = start;
        loop
            invariant
                cur < self.nodes@.len(),
                drag_target_from(self.nodes@, start as int) == drag_target_from(
                    self.nodes@,
                    cur as int,
                ),
            decreases cur,
        {
            let nd = self.nodes[cur];
            if nd.styled && !nd.ui_window_bar {
                return Some(cur);
            }
            if nd.styled && !nd.ui_window {
                match nd.parent {
                    Some(p) => {
                        if p < cur {
                            cur = p;
                        } else {
                            return None;
                        }
                    },
                    None => {
                        return None;
                    },
                }
            } else {
                return None;
            }
        }
    }

    /// The drag controller: while the primary button is held, every pressed
    /// title bar walks to its nearest drag target and translates that
    /// target's stored pixel position by the pointer velocity. Runs every
    /// frame of the hold; without a velocity (or outside a hold) nothing
    /// moves.
    pub fn window_movement(&mut self, left_pressed: bool, cursor_velocity: Option<Vec2i>)
        requires
            old(self).wf(),
        ensures
            final(self).wf(),
            final(self).option_lists == old(self).option_lists,
            final(self).next_order == old(self).next_order,
            left_pressed && cursor_velocity is Some ==> final(self).nodes@ == drag_frame(
                old(self).nodes@,
                cursor_velocity->Some_0,
                old(self).nodes@.len() as int,
            ),
            !(left_pressed && cursor_velocity is Some) ==> final(self).nodes@ == old(self).nodes@,
    {
        if !left_pressed {
            return ;
        }
        let v = match cursor_velocity {
            Some(v) => v,
            None => {
                return ;
            },
        };
        let ghost orig = *self;
        let n = self.nodes.len();
        let mut b: usize = 0;
        while b < n
            invariant
                orig.wf(),
                n == orig.nodes@.len(),
                self.nodes@.len() == n,
                b <= n,
                self.option_lists == orig.option_lists,
                self.next_order == orig.next_order,
                self.nodes@ == drag_frame(orig.nodes@, v, b as int),
            decreases n - b,
        {
            proof {
                lemma_drag_frame_skeleton(orig.nodes@, v, b as int);
            }
            let ghost folded = self.nodes@;
            let nd = self.nodes[b];
            if nd.alive && nd.ui_window_bar && !nd.ui_window && nd.interaction
                == Interaction::Pressed {
                match nd.parent {
                    Some(p) => {
                        proof {
                            assert(orig.node_wf(b as int));
                        }
                        match self.find_drag_target(p) {
                            Some(t) => {
                                let td = self.nodes[t];
                                let mut moved = false;
                                match td.style.top {
                                    Val::Px(top) => match td.style.left {
                                        Val::Px(left) => {
                                            let nt = saturating_add_i64(top, v.y);
                                            let nl = saturating_add_i64(left, v.x);
                                            self.nodes[t] = Node {
                                                style: Style {
                                                    top: Val::Px(nt),
                                                    left: Val::Px(nl),
                                                    ..td.style
                                                },
                                                ..td
                                            };
                                            moved = true;
                                        },
                                        _ => {},
                                    },
                                    _ => {},
                                }
                                proof {
                                    if !moved {
                                        assert(self.nodes@ == drag_moved(folded, v, b as int));
                                    }
                                }
                            },
                            None => {},
                        }
                    },
                    None => {},
                }
            }
            proof {
                assert(self.nodes@ == drag_moved(folded, v, b as int));
            }
            b = b + 1;
        }
        proof {
            lemma_drag_frame_skeleton(orig.nodes@, v, n as int);
            orig.lemma_wf_skeleton_preserved(*self);
        }
    }
}

/// The drag reaches the nearest drag target only: with exactly one bar held,
/// whose parent chain passes through a walk-through node to a positioned
/// target, the frame translates that target by the velocity and leaves every
/// other node untouched.
pub proof fn lemma_drag_nearest_ancestor(
    nodes: Seq<Node>,
    v: Vec2i,
    bar: usize,
    mid: usize,
    win: usize,
    top: i64,
    left: i64,
)
    requires
        drag_triggered(nodes, bar as int),
        forall|b2: int| b2 != bar as int ==> !drag_triggered(nodes, b2),
        nodes[bar as int].parent == Some(mid),
        mid < bar,
        nodes[mid as int].styled,
        nodes[mid as int].ui_window_bar,
        !nodes[mid as int].ui_window,
        nodes[mid as int].parent == Some(win),
        win < mid,
        nodes[win as int].styled,
        !nodes[win as int].ui_window_bar,
        nodes[win as int].style.top == Val::Px(top),
        nodes[win as int].style.left == Val::Px(left),
    ensures
        ({
            let out = drag_frame(nodes, v, nodes.len() as int);
            &&& out[win as int] == (Node {
                style: Style {
                    top: Val::Px(sat_add64(top, v.y)),
                    left: Val::Px(sat_add64(left, v.x)),
                    ..nodes[win as int].style
                },
                ..nodes[win as int]
            })
            &&& forall|j: int|
                0 <= j < nodes.len() && j != win as int ==> #[trigger] out[j] == nodes[j]
        }),
{
    assert(drag_target_from(nodes, win as int) == Some(win as int));
    assert(drag_target_from(nodes, mid as int) == Some(win as int));
    lemma_drag_frame_single(nodes, v, nodes.len() as int, bar as int);
    assert(drag_frame(nodes, v, nodes.len() as int) == drag_moved(nodes, v, bar as int));
    assert(drag_moved(nodes, v, bar as int) == nodes.update(
        win as int,
        Node {
            style: Style {
                top: Val::Px(sat_add64(top, v.y)),
                left: Val::Px(sat_add64(left, v.x)),
                ..nodes[win as int].style
            },
            ..nodes[win as int]
        },
    ));
}

/// With a single held bar, the whole drag frame is that bar's one step.
#[verifier::rlimit(100)]
pub proof fn lemma_drag_frame_single(nodes: Seq<Node>, v: Vec2i, upto: int, bar: int)
    requires
        forall|b2: int| b2 != bar ==> !drag_triggered(nodes, b2),
    ensures
        drag_frame(nodes, v, upto) == if 0 <= bar < upto {
            drag_moved(nodes, v, bar)
        } else {
            nodes
        },
    decreases upto,
{
    if upto > 0 {
        lemma_drag_frame_single(nodes, v, upto - 1, bar);
        let folded = drag_frame(nodes, v, upto - 1);
        if upto - 1 == bar {
        } else {
            if 0 <= bar < upto - 1 {
                lemma_drag_moved_skeleton(nodes, v, bar);
                if 0 <= upto - 1 < nodes.len() {
                    assert(drag_moved(nodes, v, bar)[upto - 1] == (Node {
                        style: drag_moved(nodes, v, bar)[upto - 1].style,
                        ..nodes[upto - 1]
                    }));
                    assert(folded[upto - 1] == drag_moved(nodes, v, bar)[upto - 1]);
                }
            }
            assert(folded.len() == nodes.len());
            assert(!drag_triggered(nodes, upto - 1));
            assert(!drag_triggered(folded, upto - 1));
        }
    }
}

/// Window panel fill: alpha-tinted gray, channels in hundredths.
pub open spec fn window_fill() -> crate::scene::Rgba {
    crate::scene::Rgba { r: 70, g: 70, b: 70, a: 70 }
}

/// Title-bar fill: opaque white.
pub open spec fn bar_fill() -> crate::scene::Rgba {
    crate::scene::Rgba { r: 100, g: 100, b: 100, a: 100 }
}

/// Close-button fill: opaque black.
pub open spec fn button_fill() -> crate::scene::Rgba {
    crate::scene::Rgba { r: 0, g: 0, b: 0, a: 100 }
}

/// Default window style: absolute, 200 by 200 pixels (lengths in tenths).
pub open spec fn window_default_style() -> Style {
    Style {
        absolute: true,
        top: Val::Auto,
        left: Val::Auto,
        width: Val::Px(2000),
        height: Val::Px(2000),
    }
}

/// Title-bar style: absolute, full width, 20 pixels tall.
pub open spec fn bar_style() -> Style {
    Style {
        absolute: true,
        top: Val::Auto,
        left: Val::Auto,
        width: Val::Percent(100),
        height: Val::Px(200),
    }
}

/// Close-button style: a 17.5 pixel square in flow layout.
pub open spec fn button_style() -> Style {
    Style {
        absolute: false,
        top: Val::Auto,
        left: Val::Auto,
        width: Val::Px(175),
        height: Val::Px(175),
    }
}

/// Marker for a top-level draggable window panel.
#[derive(Clone, Copy, Debug)]
pub struct UiWindow;

/// Marker for the shared node windows are constructed under.
#[derive(Clone, Copy, Debug)]
pub struct UiWindowParent;

/// Marker for a window title bar.
#[derive(Clone, Copy, Debug)]
pub struct UiWindowBar;

/// Marker for a window-bar button slot.
#[derive(Clone, Copy, Debug)]
pub struct UiWindowBarButton;

/// A visual node template: a fill color and a layout style.
#[derive(Clone, Copy, Debug)]
pub struct NodeBundle {
    pub color: crate::scene::Rgba,
    pub style: Style,
}

/// Everything a window panel is spawned from.
#[derive(Clone, Copy, Debug)]
pub struct UiWindowBundle {
    pub ui_window: UiWindow,
    pub node_bundle: NodeBundle,
}

impl UiWindowBundle {
    /// The default panel: gray fill, absolute 200 by 200 box.
    pub fn default_bundle() -> (b: UiWindowBundle)
        ensures
            b.node_bundle.color == window_fill(),
            b.node_bundle.style == window_default_style(),
    {
        UiWindowBundle {
            ui_window: UiWindow,
            node_bundle: NodeBundle {
                color: crate::scene::Rgba { r: 70, g: 70, b: 70, a: 70 },
                style: Style {
                    absolute: true,
                    top: Val::Auto,
                    left: Val::Auto,
                    width: Val::Px(2000),
                    height: Val::Px(2000),
                },
            },
        }
    }

    /// Replace the whole visual template.
    pub fn with_button_bundle(self, node_bundle: NodeBundle) -> (b: UiWindowBundle)
        ensures
            b.node_bundle == node_bundle,
    {
        UiWindowBundle { node_bundle, ..self }
    }

    /// Replace the style, keeping the fill.
    pub fn with_style(self, style: Style) -> (b: UiWindowBundle)
        ensures
            b.node_bundle.style == style,
            b.node_bundle.color == self.node_bundle.color,
    {
        UiWindowBundle { node_bundle: NodeBundle { style, ..self.node_bundle }, ..self }
    }

    /// Replace the window marker.
    pub fn with_ui_window(self, ui_window: UiWindow) -> (b: UiWindowBundle)
        ensures
            b.node_bundle == self.node_bundle,
    {
        UiWindowBundle { ui_window, ..self }
    }

    /// Center the window on a screen position: with pixel width and height,
    /// top and left move to the position less half the size.
    pub fn with_screen_position(self, position: Vec2i) -> (b: UiWindowBundle)
        ensures
            ({
                let s = self.node_bundle.style;
                match s.width {
                    Val::Px(w) => match s.height {
                        Val::Px(h) => (w >= 0 && h >= 0) ==> b.node_bundle.style == (Style {
                            left: Val::Px(sat_add64(position.x, (-(w / 2)) as i64)),
                            top: Val::Px(sat_add64(position.y, (-(h / 2)) as i64)),
                            ..s
                        }),
                        _ => b == self,
                    },
                    _ => b == self,
                }
            }),
            b.node_bundle.color == self.node_bundle.color,
    {
        let s = self.node_bundle.style;
        match s.width {
            Val::Px(w) => match s.height {
                Val::Px(h) => {
                    if w >= 0 && h >= 0 {
                        let left = saturating_add_i64(position.x, -(w / 2));
                        let top = saturating_add_i64(position.y, -(h / 2));
                        UiWindowBundle {
                            node_bundle: NodeBundle {
                                style: Style { left: Val::Px(left), top: Val::Px(top), ..s },
                                ..self.node_bundle
                            },
                            ..self
                        }
                    } else {
                        self
                    }
                },
                _ => self,
            },
            _ => self,
        }
    }

    /// Spawn a full window: the panel, its title bar, and the bar's close
    /// button, wired parent to child in that order.
    pub fn construct(self, scene: &mut Scene) -> (window: usize)
        requires
            old(scene).wf(),
            old(scene).next_order + 3 <= u64::MAX,
        ensures
            final(scene).wf(),
            window == old(scene).nodes@.len(),
            final(scene).nodes@.len() == old(scene).nodes@.len() + 3,
            forall|j: int|
                0 <= j < old(scene).nodes@.len() ==> final(scene).nodes@[j] == old(scene).nodes@[j],
            final(scene).nodes@[window as int] == (Node {
                alive: true,
                parent: None,
                order: old(scene).next_order,
                styled: true,
                style: self.node_bundle.style,
                color: self.node_bundle.color,
                hit_test: true,
                ui_window: true,
                ..Node::plain_spec()
            }),
            final(scene).nodes@[window + 1] == (Node {
                alive: true,
                parent: Some(window),
                order: (old(scene).next_order + 1) as u64,
                styled: true,
                style: bar_style(),
                color: bar_fill(),
                hit_test: true,
                ui_window_bar: true,
                ..Node::plain_spec()
            }),
            final(scene).nodes@[window + 2] == (Node {
                alive: true,
                parent: Some((window + 1) as usize),
                order: (old(scene).next_order + 2) as u64,
                styled: true,
                style: button_style(),
                color: button_fill(),
                hit_test: true,
                button_action: Some(UiButtonAction::CloseWindow),
                ..Node::plain_spec()
            }),
            final(scene).option_lists == old(scene).option_lists,
            final(scene).next_order == old(scene).next_order + 3,
    {
        let window = self.construct_borderless(scene);
        let bar = UiWindowBar::construct_under(scene, window);
        let _button = UiButton::new_close_window().construct_under(scene, bar);
        window
    }

    /// Spawn only the panel node, without bar or close button.
    pub fn construct_borderless(self, scene: &mut Scene) -> (window: usize)
        requires
            old(scene).wf(),
            old(scene).next_order < u64::MAX,
        ensures
            final(scene).wf(),
            window == old(scene).nodes@.len(),
            final(scene).nodes@ == old(scene).nodes@.push(
                Node {
                    alive: true,
                    parent: None,
                    order: old(scene).next_order,
                    styled: true,
                    style: self.node_bundle.style,
                    color: self.node_bundle.color,
                    hit_test: true,
                    ui_window: true,
                    ..Node::plain_spec()
                },
            ),
            final(scene).option_lists == old(scene).option_lists,
            final(scene).next_order == old(scene).next_order + 1,
    {
        scene.spawn_node(
            Node {
                styled: true,
                style: self.node_bundle.style,
                color: self.node_bundle.color,
                hit_test: true,
                ui_window: true,
                ..Node::plain()
            },
            None,
        )
    }
}

impl UiWindowBar {
    /// Spawn a title bar under a window: opaque white, absolute, full width,
    /// 20 pixels tall, itself interactive.
    pub fn construct_under(scene: &mut Scene, window: usize) -> (bar: usize)
        requires
            old(scene).wf(),
            old(scene).next_order < u64::MAX,
            window < old(scene).nodes@.len(),
            old(scene).nodes@[window as int].alive,
        ensures
            final(scene).wf(),
            bar == old(scene).nodes@.len(),
            final(scene).nodes@ == old(scene).nodes@.push(
                Node {
                    alive: true,
                    parent: Some(window),
                    order: old(scene).next_order,
                    styled: true,
                    style: bar_style(),
                    color: bar_fill(),
                    hit_test: true,
                    ui_window_bar: true,
                    ..Node::plain_spec()
                },
            ),
            final(scene).option_lists == old(scene).option_lists,
            final(scene).next_order == old(scene).next_order + 1,
    {
        scene.spawn_node(
            Node {
                styled: true,
                style: Style {
                    absolute: true,
                    top: Val::Auto,
                    left: Val::Auto,
                    width: Val::Percent(100),
                    height: Val::Px(200),
                },
                color: crate::scene::Rgba { r: 100, g: 100, b: 100, a: 100 },
                hit_test: true,
                ui_window_bar: true,
                ..Node::plain()
            },
            Some(window),
        )
    }
}

/// A generic interactive control carrying an action tag.
#[derive(Clone, Copy, Debug)]
pub struct UiButton {
    pub mouse_over: bool,
    pub pressed: bool,
    pub ui_button_action: UiButtonAction,
}

impl UiButton {
    /// An idle control with no action.
    pub fn default_button() -> (b: UiButton)
        ensures
            !b.mouse_over,
            !b.pressed,
            b.ui_button_action == UiButtonAction::Nothing,
    {
        UiButton { mouse_over: false, pressed: false, ui_button_action: UiButtonAction::Nothing }
    }

    /// A control whose press closes its window.
    pub fn new_close_window() -> (b: UiButton)
        ensures
            !b.mouse_over,
            !b.pressed,
            b.ui_button_action == UiButtonAction::CloseWindow,
    {
        UiButton { mouse_over: false, pressed: false, ui_button_action: UiButtonAction::CloseWindow }
    }

    /// Spawn the control under a parent: opaque black, a 17.5 pixel square,
    /// interactive, carrying this control's action.
    pub fn construct_under(self, scene: &mut Scene, parent: usize) -> (button: usize)
        requires
            old(scene).wf(),
            old(scene).next_order < u64::MAX,
            parent < old(scene).nodes@.len(),
            old(scene).nodes@[parent as int].alive,
        ensures
            final(scene).wf(),
            button == old(scene).nodes@.len(),
            final(scene).nodes@ == old(scene).nodes@.push(
                Node {
                    alive: true,
                    parent: Some(parent),
                    order: old(scene).next_order,
                    styled: true,
                    style: button_style(),
                    color: button_fill(),
                    hit_test: true,
                    button_action: Some(self.ui_button_action),
                    ..Node::plain_spec()
                },
            ),
            final(scene).option_lists == old(scene).option_lists,
            final(scene).next_order == old(scene).next_order + 1,
    {
        scene.spawn_node(
            Node {
                styled: true,
                style: Style {
                    absolute: false,
                    top: Val::Auto,
                    left: Val::Auto,
                    width: Val::Px(175),
                    height: Val::Px(175),
                },
                color: crate::scene::Rgba { r: 0, g: 0, b: 0, a: 100 },
                hit_test: true,
                button_action: Some(self.ui_button_action),
                ..Node::plain()
            },
            Some(parent),
        )
    }
}

/// Spawn the shared, absolutely positioned parent node windows live under.
pub fn setup(scene: &mut Scene) -> (parent: usize)
    requires
        old(scene).wf(),
        old(scene).next_order < u64::MAX,
    ensures
        final(scene).wf(),
        parent == old(scene).nodes@.len(),
        final(scene).nodes@ == old(scene).nodes@.push(
            Node {
                alive: true,
                parent: None,
                order: old(scene).next_order,
                styled: true,
                style: Style {
                    absolute: true,
                    top: Val::Auto,
                    left: Val::Auto,
                    width: Val::Auto,
                    height: Val::Auto,
                },
                ui_window_parent: true,
                ..Node::plain_spec()
            },
        ),
        final(scene).option_lists == old(scene).option_lists,
        final(scene).next_order == old(scene).next_order + 1,
{
    scene.spawn_node(
        Node {
            styled: true,
            style: Style {
                absolute: true,
                top: Val::Auto,
                left: Val::Auto,
                width: Val::Auto,
                height: Val::Auto,
            },
            ui_window_parent: true,
            ..Node::plain()
        },
        None,
    )
}

} // verus!
