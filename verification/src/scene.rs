//! The scene-graph model the window and menu passes operate on.
//!
//! Nodes live in an arena; a node's parent always has a smaller index than
//! the node itself, which bounds every upward walk and makes subtree despawn
//! terminate. Sibling render order is the per-scene insertion counter
//! [`Scene::next_order`]: among siblings, larger `order` draws later, so
//! bring-to-front is one counter bump instead of physical re-parenting.

use vstd::prelude::*;

use crate::absolute_button::{AbsoluteInteraction, Interaction};
use crate::context_menu::{ContextMenu, ContextMenuOption, ContextMenuOptions, MenuEntry};
use crate::geometry::Vec2i;
use crate::ui_window::UiButtonAction;

verus! {

/// A layout length: unset, absolute tenths of a pixel, or a percentage.
#[derive(Clone, Copy, PartialEq, Eq, Structural, Debug)]
pub enum Val {
    Auto,
    Px(i64),
    Percent(i64),
}

/// The stored layout style of a node; dragging mutates `top` and `left`.
#[derive(Clone, Copy, PartialEq, Eq, Structural, Debug)]
pub struct Style {
    /// Positioned absolutely rather than by flow layout.
    pub absolute: bool,
    pub top: Val,
    pub left: Val,
    pub width: Val,
    pub height: Val,
}

impl Style {
    /// An unpositioned flow-layout style.
    pub fn plain() -> (s: Style)
        ensures
            s == (Style {
                absolute: false,
                top: Val::Auto,
                left: Val::Auto,
                width: Val::Auto,
                height: Val::Auto,
            }),
    {
        Style { absolute: false, top: Val::Auto, left: Val::Auto, width: Val::Auto, height: Val::Auto }
    }
}

/// A fill color; channels are hundredths of unit intensity.
#[derive(Clone, Copy, PartialEq, Eq, Structural, Debug)]
pub struct Rgba {
    pub r: u8,
    pub g: u8,
    pub b: u8,
    pub a: u8,
}

/// One scene-graph entity with its components.
#[derive(Clone, Copy, Debug)]
pub struct Node {
    /// False once the node has been despawned; despawned slots are never reused.
    pub alive: bool,
    /// The owning parent; always an earlier slot.
    pub parent: Option<usize>,
    /// Insertion-order counter; among siblings, larger draws later.
    pub order: u64,
    /// Carries the host layout component (it has a style and a computed box).
    pub styled: bool,
    pub style: Style,
    pub color: Rgba,
    /// Host-computed world translation of the node's center, tenths of a pixel.
    pub translation: Vec2i,
    /// Host-computed size, tenths of a pixel; never negative.
    pub size: Vec2i,
    /// Host-computed global stacking index; 0 means unset.
    pub stack_index: u32,
    /// Host-written occlusion-based interaction.
    pub interaction: Interaction,
    /// Host change notification: `interaction` moved this frame.
    pub interaction_changed: bool,
    /// Occlusion-bypassing interaction, written by the absolute hit-test pass.
    pub absolute: AbsoluteInteraction,
    /// Change notification of the absolute hit-test pass.
    pub absolute_changed: bool,
    /// Participates in hit testing (carries the host's button marker).
    pub hit_test: bool,
    /// Marks a top-level draggable window panel.
    pub ui_window: bool,
    /// Marks a window title bar, the drag source of its window.
    pub ui_window_bar: bool,
    /// Marks a window-bar button slot.
    pub ui_window_bar_button: bool,
    /// Marks the shared parent node windows are constructed under.
    pub ui_window_parent: bool,
    /// A generic control: present with its action tag, or absent.
    pub button_action: Option<UiButtonAction>,
    /// A menu-owning node: handle of its option list in the scene store.
    pub menu_options: Option<usize>,
    /// A spawned context-menu container.
    pub context_menu: Option<ContextMenu>,
    /// A clickable menu entry bound to one option.
    pub menu_entry: Option<MenuEntry>,
    /// A text node showing one option's label.
    pub text_of: Option<MenuEntry>,
}

impl Node {
    /// A bare, unstyled template with every component absent.
    pub fn plain() -> (n: Node)
        ensures
            n == Node::plain_spec(),
    {
        Node {
            alive: false,
            parent: None,
            order: 0,
            styled: false,
            style: Style::plain(),
            color: Rgba { r: 0, g: 0, b: 0, a: 0 },
            translation: Vec2i { x: 0, y: 0 },
            size: Vec2i { x: 0, y: 0 },
            stack_index: 0,
            interaction: Interaction::Idle,
            interaction_changed: false,
            absolute: AbsoluteInteraction::Idle,
            absolute_changed: false,
            hit_test: false,
            ui_window: false,
            ui_window_bar: false,
            ui_window_bar_button: false,
            ui_window_parent: false,
            button_action: None,
            menu_options: None,
            context_menu: None,
            menu_entry: None,
            text_of: None,
        }
    }

    /// The bare template as a specification value.
    pub open spec fn plain_spec() -> Node {
        Node {
            alive: false,
            parent: None,
            order: 0,
            styled: false,
            style: Style {
                absolute: false,
                top: Val::Auto,
                left: Val::Auto,
                width: Val::Auto,
                height: Val::Auto,
            },
            color: Rgba { r: 0, g: 0, b: 0, a: 0 },
            translation: Vec2i { x: 0, y: 0 },
            size: Vec2i { x: 0, y: 0 },
            stack_index: 0,
            interaction: Interaction::Idle,
            interaction_changed: false,
            absolute: AbsoluteInteraction::Idle,
            absolute_changed: false,
            hit_test: false,
            ui_window: false,
            ui_window_bar: false,
            ui_window_bar_button: false,
            ui_window_parent: false,
            button_action: None,
            menu_options: None,
            context_menu: None,
            menu_entry: None,
            text_of: None,
        }
    }
}

/// The scene: the node arena, the store of registered option lists, and the
/// insertion-order counter.
pub struct Scene {
    pub nodes: Vec<Node>,
    pub option_lists: Vec<ContextMenuOptions>,
    pub next_order: u64,
}

impl Scene {
    /// Well-formedness of one slot: a live node's parent is an earlier live
    /// slot, its order is below the counter, its option-list handles are in
    /// range, and its size is never negative.
    pub open spec fn node_wf(self, i: int) -> bool {
        self.nodes@[i].alive ==> {
            let n = self.nodes@[i];
            &&& n.order < self.next_order
            &&& match n.parent {
                Some(p) => p < i && self.nodes@[p as int].alive,
                None => true,
            }
            &&& match n.menu_options {
                Some(h) => h < self.option_lists.len(),
                None => true,
            }
            &&& match n.context_menu {
                Some(m) => m.options < self.option_lists.len(),
                None => true,
            }
            &&& match n.menu_entry {
                Some(e) => e.list < self.option_lists.len() && e.index < self.option_lists@[e.list as int].0.len(),
                None => true,
            }
            &&& match n.text_of {
                Some(e) => e.list < self.option_lists.len() && e.index < self.option_lists@[e.list as int].0.len(),
                None => true,
            }
            &&& n.size.x >= 0
            &&& n.size.y >= 0
        }
    }

    /// Scene invariant: every slot is well formed and live render orders are
    /// pairwise distinct, so sibling order is a strict total order.
    pub open spec fn wf(self) -> bool {
        &&& forall|i: int| 0 <= i < self.nodes@.len() ==> #[trigger] self.node_wf(i)
        &&& forall|i: int, j: int|
            0 <= i < self.nodes@.len() && 0 <= j < self.nodes@.len() && i != j
                && self.nodes@[i].alive && self.nodes@[j].alive ==> #[trigger] self.nodes@[i].order
                != #[trigger] self.nodes@[j].order
    }

    /// An empty scene.
    pub fn new() -> (s: Scene)
        ensures
            s.wf(),
            s.nodes@.len() == 0,
            s.option_lists@.len() == 0,
            s.next_order == 0,
    {
        Scene { nodes: Vec::new(), option_lists: Vec::new(), next_order: 0 }
    }

    /// Spawn a node from a template: it comes alive under the given parent
    /// with the next render order. Returns the new slot's index.
    #[verifier::rlimit(100)]
    pub fn spawn_node(&mut self, template: Node, parent: Option<usize>) -> (idx: usize)
        requires
            old(self).wf(),
            old(self).next_order < u64::MAX,
            match parent {
                Some(p) => p < old(self).nodes@.len() && old(self).nodes@[p as int].alive,
                None => true,
            },
            match template.menu_options {
                Some(h) => h < old(self).option_lists@.len(),
                None => true,
            },
            match template.context_menu {
                Some(m) => m.options < old(self).option_lists@.len(),
                None => true,
            },
            match template.menu_entry {
                Some(e) => e.list < old(self).option_lists@.len() && e.index < old(
                    self,
                ).option_lists@[e.list as int].0.len(),
                None => true,
            },
            match template.text_of {
                Some(e) => e.list < old(self).option_lists@.len() && e.index < old(
                    self,
                ).option_lists@[e.list as int].0.len(),
                None => true,
            },
            template.size.x >= 0,
            template.size.y >= 0,
        ensures
            final(self).wf(),
            idx == old(self).nodes@.len(),
            final(self).nodes@ == old(self).nodes@.push(
                Node { alive: true, parent, order: old(self).next_order, ..template },
            ),
            final(self).option_lists == old(self).option_lists,
            final(self).next_order == old(self).next_order + 1,
    {
        let idx = self.nodes.len();
        let fresh = Node { alive: true, parent, order: self.next_order, ..template };
        self.nodes.push(fresh);
        self.next_order = self.next_order + 1;
        proof {
            let s = *self;
            let o = *old(self);
            assert(s.nodes@[idx as int] == fresh);
            assert forall|i: int| 0 <= i < s.nodes@.len() implies #[trigger] s.node_wf(i) by {
                if i < idx {
                    assert(s.nodes@[i] == o.nodes@[i]);
                    assert(o.node_wf(i));
                } else {
                    assert(s.nodes@[i] == fresh);
                }
            }
            assert forall|i: int, j: int|
                0 <= i < s.nodes@.len() && 0 <= j < s.nodes@.len() && i != j && s.nodes@[i].alive
                    && s.nodes@[j].alive implies #[trigger] s.nodes@[i].order
                != #[trigger] s.nodes@[j].order by {
                if i < idx && j < idx {
                    assert(s.nodes@[i] == o.nodes@[i]);
                    assert(s.nodes@[j] == o.nodes@[j]);
                } else if i == idx {
                    assert(s.nodes@[j] == o.nodes@[j]);
                    assert(o.node_wf(j));
                } else {
                    assert(s.nodes@[i] == o.nodes@[i]);
                    assert(o.node_wf(i));
                }
            }
        }
        idx
    }

    /// Register an option list in the scene store, returning its handle.
    /// The store is append-only, so handles never dangle.
    pub fn register_options(&mut self, list: ContextMenuOptions) -> (h: usize)
        requires
            old(self).wf(),
        ensures
            final(self).wf(),
            h == old(self).option_lists@.len(),
            final(self).option_lists@ == old(self).option_lists@.push(list),
            final(self).nodes == old(self).nodes,
            final(self).next_order == old(self).next_order,
    {
        let h = self.option_lists.len();
        self.option_lists.push(list);
        proof {
            let s = *self;
            let o = *old(self);
            assert forall|i: int| 0 <= i < s.nodes@.len() implies #[trigger] s.node_wf(i) by {
                assert(o.node_wf(i));
            }
        }
        h
    }

    /// Host input: write the layout results for one live node.
    pub fn set_layout(&mut self, i: usize, translation: Vec2i, size: Vec2i, stack_index: u32)
        requires
            old(self).wf(),
            i < old(self).nodes@.len(),
            size.x >= 0,
            size.y >= 0,
        ensures
            final(self).wf(),
            final(self).nodes@ == old(self).nodes@.update(
                i as int,
                Node { translation, size, stack_index, ..old(self).nodes@[i as int] },
            ),
            final(self).option_lists == old(self).option_lists,
            final(self).next_order == old(self).next_order,
    {
        let nd = self.nodes[i];
        self.nodes[i] = Node { translation, size, stack_index, ..nd };
        proof {
            let s = *self;
            let o = *old(self);
            assert forall|m: int| 0 <= m < s.nodes@.len() implies #[trigger] s.node_wf(m) by {
                assert(o.node_wf(m));
            }
        }
    }

    /// Host input: write the occlusion-based interaction for one live node.
    /// The change flag records whether the value moved, so destructive passes
    /// stay edge-triggered.
    pub fn set_interaction(&mut self, i: usize, interaction: Interaction)
        requires
            old(self).wf(),
            i < old(self).nodes@.len(),
        ensures
            final(self).wf(),
            final(self).nodes@ == old(self).nodes@.update(
                i as int,
                Node {
                    interaction,
                    interaction_changed: interaction != old(self).nodes@[i as int].interaction,
                    ..old(self).nodes@[i as int]
                },
            ),
            final(self).option_lists == old(self).option_lists,
            final(self).next_order == old(self).next_order,
    {
        let nd = self.nodes[i];
        let changed = interaction != nd.interaction;
        self.nodes[i] = Node { interaction, interaction_changed: changed, ..nd };
        proof {
            let s = *self;
            let o = *old(self);
            assert forall|m: int| 0 <= m < s.nodes@.len() implies #[trigger] s.node_wf(m) by {
                assert(o.node_wf(m));
            }
        }
    }

    /// Start of a new frame: clear the change notifications of the last one.
    pub fn clear_changed(&mut self)
        requires
            old(self).wf(),
        ensures
            final(self).wf(),
            final(self).nodes@.len() == old(self).nodes@.len(),
            forall|m: int|
                0 <= m < old(self).nodes@.len() ==> final(self).nodes@[m] == (Node {
                    interaction_changed: false,
                    absolute_changed: false,
                    ..old(self).nodes@[m]
                }),
            final(self).option_lists == old(self).option_lists,
            final(self).next_order == old(self).next_order,
    {
        let ghost orig = *self;
        let n = self.nodes.len();
        let mut i: usize = 0;
        while i < n
            invariant
                n == orig.nodes@.len(),
                self.nodes@.len() == n,
                i <= n,
                self.option_lists == orig.option_lists,
                self.next_order == orig.next_order,
                forall|m: int|
                    0 <= m < i ==> self.nodes@[m] == (Node {
                        interaction_changed: false,
                        absolute_changed: false,
                        ..orig.nodes@[m]
                    }),
                forall|m: int| i <= m < n ==> self.nodes@[m] == orig.nodes@[m],
                orig.wf(),
            decreases n - i,
        {
            let nd = self.nodes[i];
            self.nodes[i] = Node { interaction_changed: false, absolute_changed: false, ..nd };
            i = i + 1;
        }
        proof {
            let s = *self;
            assert forall|m: int| 0 <= m < s.nodes@.len() implies #[trigger] s.node_wf(m) by {
                assert(orig.node_wf(m));
            }
        }
    }

    /// Well-formedness depends only on the ownership skeleton: if two scenes
    /// agree on store, counter, and every node's structural fields, the
    /// invariant carries over.
    pub proof fn lemma_wf_skeleton_preserved(self, other: Scene)
        requires
            self.wf(),
            other.option_lists == self.option_lists,
            other.next_order == self.next_order,
            other.nodes@.len() == self.nodes@.len(),
            forall|i: int|
                0 <= i < self.nodes@.len() ==> {
                    let a = #[trigger] self.nodes@[i];
                    let b = #[trigger] other.nodes@[i];
                    &&& b.alive == a.alive
                    &&& b.parent == a.parent
                    &&& b.order == a.order
                    &&& b.menu_options == a.menu_options
                    &&& b.context_menu == a.context_menu
                    &&& b.menu_entry == a.menu_entry
                    &&& b.text_of == a.text_of
                    &&& b.size == a.size
                },
        ensures
            other.wf(),
    {
        assert forall|i: int| 0 <= i < other.nodes@.len() implies #[trigger] other.node_wf(i) by {
            assert(self.node_wf(i));
        }
        assert forall|i: int, j: int|
            0 <= i < other.nodes@.len() && 0 <= j < other.nodes@.len() && i != j
                && other.nodes@[i].alive && other.nodes@[j].alive implies #[trigger] other.nodes@[i].order
            != #[trigger] other.nodes@[j].order by {
            assert(self.nodes@[i].order != self.nodes@[j].order);
        }
    }
}

/// Is slot `i` inside the subtree rooted at `root`, following parent links?
/// Purely structural: despawning flips liveness but never rewires parents.
pub open spec fn in_subtree(nodes: Seq<Node>, root: int, i: int) -> bool
    decreases i,
{
    if i == root {
        true
    } else if 0 <= i < nodes.len() {
        match nodes[i].parent {
            Some(p) => {
                if (p as int) < i {
                    in_subtree(nodes, root, p as int)
                } else {
                    false
                }
            },
            None => false,
        }
    } else {
        false
    }
}

/// Subtree membership reads only parent links: scenes that agree on them
/// agree on every subtree.
pub proof fn lemma_in_subtree_congruent(a: Seq<Node>, b: Seq<Node>, root: int, i: int)
    requires
        a.len() == b.len(),
        forall|m: int| 0 <= m < a.len() ==> #[trigger] b[m].parent == a[m].parent,
    ensures
        in_subtree(a, root, i) == in_subtree(b, root, i),
    decreases i,
{
    if i != root && 0 <= i < a.len() {
        match a[i].parent {
            Some(p) => {
                if (p as int) < i {
                    lemma_in_subtree_congruent(a, b, root, p as int);
                }
            },
            None => {},
        }
    }
}

impl Scene {
    /// Decide subtree membership by walking parent links upward.
    pub fn is_in_subtree(&self, root: usize, i: usize) -> (r: bool)
        requires
            i < self.nodes@.len(),
        ensures
            r == in_subtree(self.nodes@, root as int, i as int),
    {
        let mut cur = i;
        loop
            invariant
                cur < self.nodes@.len(),
                in_subtree(self.nodes@, root as int, i as int) == in_subtree(
                    self.nodes@,
                    root as int,
                    cur as int,
                ),
            decreases cur,
        {
            if cur == root {
                return true;
            }
            match self.nodes[cur].parent {
                Some(p) => {
                    if p < cur {
                        cur = p;
                    } else {
                        return false;
                    }
                },
                None => {
                    return false;
                },
            }
        }
    }

    /// Despawn the subtree rooted at `root`: the root and all its descendants
    /// stop being alive; every other node, the store, and the counter are
    /// untouched. Parent links are kept, so membership stays decidable.
    #[verifier::rlimit(50)]
    pub fn despawn_subtree(&mut self, root: usize)
        requires
            old(self).wf(),
            root < old(self).nodes@.len(),
        ensures
            final(self).wf(),
            final(self).nodes@.len() == old(self).nodes@.len(),
            forall|j: int|
                0 <= j < old(self).nodes@.len() ==> final(self).nodes@[j] == (Node {
                    alive: old(self).nodes@[j].alive && !in_subtree(
                        old(self).nodes@,
                        root as int,
                        j,
                    ),
                    ..old(self).nodes@[j]
                }),
            final(self).option_lists == old(self).option_lists,
            final(self).next_order == old(self).next_order,
    {
        let ghost orig = *self;
        let n = self.nodes.len();
        let mut j: usize = 0;
        while j < n
            invariant
                n == orig.nodes@.len(),
                self.nodes@.len() == n,
                j <= n,
                root < n,
                self.option_lists == orig.option_lists,
                self.next_order == orig.next_order,
                forall|m: int|
                    0 <= m < j ==> self.nodes@[m] == (Node {
                        alive: orig.nodes@[m].alive && !in_subtree(orig.nodes@, root as int, m),
                        ..orig.nodes@[m]
                    }),
                forall|m: int| j <= m < n ==> self.nodes@[m] == orig.nodes@[m],
            decreases n - j,
        {
            proof {
                lemma_in_subtree_congruent(self.nodes@, orig.nodes@, root as int, j as int);
            }
            if self.is_in_subtree(root, j) {
                let nd = self.nodes[j];
                self.nodes[j] = Node { alive: false, ..nd };
            }
            j = j + 1;
        }
        proof {
            let s = *self;
            assert forall|i: int| 0 <= i < s.nodes@.len() implies #[trigger] s.node_wf(i) by {
                assert(orig.node_wf(i));
                if s.nodes@[i].alive {
                    match s.nodes@[i].parent {
                        Some(p) => {
                            // The node survived, so it is outside the felled
                            // subtree; its parent then is too, and stays alive.
                            assert(!in_subtree(orig.nodes@, root as int, i));
                            assert(in_subtree(orig.nodes@, root as int, p as int) ==> in_subtree(
                                orig.nodes@,
                                root as int,
                                i,
                            ));
                        },
                        None => {},
                    }
                }
            }
        }
    }
}

} // verus!
