//! Transient right-click context menus: spawn on right-click, despawn on
//! the next click that does not land on the menu itself.

use vstd::prelude::*;

use crate::absolute_button::{AbsoluteInteraction, Interaction};
use crate::geometry::Vec2i;
use crate::scene::{in_subtree, lemma_in_subtree_congruent, Node, Rgba, Scene, Style, Val};
use crate::ui_window::window_fill;

verus! {

/// One immutable, labelled menu entry.
#[derive(Debug)]
pub struct ContextMenuOption {
    pub label: String,
}

/// An ordered list of menu options; menu-owning nodes carry one and spawned
/// menus are built from one.
#[derive(Debug)]
pub struct ContextMenuOptions(pub Vec<ContextMenuOption>);

/// The labels of an option list, as a specification value.
pub open spec fn labels(l: ContextMenuOptions) -> Seq<Seq<char>> {
    Seq::new(l.0@.len(), |i: int| l.0@[i].label@)
}

impl ContextMenuOptions {
    /// The canvas-default list: a single "Spawn" entry.
    pub fn canvas() -> (r: ContextMenuOptions)
        ensures
            labels(r) =~= seq!["Spawn"@],
    {
        let mut v: Vec<ContextMenuOption> = Vec::new();
        v.push(ContextMenuOption { label: "Spawn".to_owned() });
        ContextMenuOptions(v)
    }

    /// Append further options to this list, keeping the existing order.
    pub fn with(self, options: Vec<ContextMenuOption>) -> (r: ContextMenuOptions)
        ensures
            r.0@ == self.0@ + options@,
    {
        let ContextMenuOptions(mut v) = self;
        let mut rest = options;
        v.append(&mut rest);
        ContextMenuOptions(v)
    }

    /// Wrap an owned option vector.
    pub fn from_options(options: Vec<ContextMenuOption>) -> (r: ContextMenuOptions)
        ensures
            r.0 == options,
    {
        ContextMenuOptions(options)
    }
}

/// A spawned context-menu container: the handle of the option list it was
/// built from, and an optional back-reference to the node that spawned it
/// (a lookup, not ownership).
#[derive(Clone, Copy, PartialEq, Eq, Structural, Debug)]
pub struct ContextMenu {
    pub options: usize,
    pub owner: Option<usize>,
}

/// A clickable menu entry or its label: one option of a registered list.
#[derive(Clone, Copy, PartialEq, Eq, Structural, Debug)]
pub struct MenuEntry {
    pub list: usize,
    pub index: usize,
}

/// Menu-entry fill at rest: fully transparent.
pub open spec fn entry_rest_fill() -> Rgba {
    Rgba { r: 0, g: 0, b: 0, a: 0 }
}

/// Menu-entry fill while hovered or pressed: black at a fifth alpha.
pub open spec fn entry_active_fill() -> Rgba {
    Rgba { r: 0, g: 0, b: 0, a: 20 }
}

/// A menu container's style: absolutely positioned at the pointer, sized by
/// its contents.
pub open spec fn menu_style(translation: Vec2i) -> Style {
    Style {
        absolute: true,
        top: Val::Px(translation.y),
        left: Val::Px(translation.x),
        width: Val::Auto,
        height: Val::Auto,
    }
}

/// The container node a menu spawn creates.
pub open spec fn spawned_container(h: usize, owner: Option<usize>, ord: u64, translation: Vec2i) -> Node {
    Node {
        alive: true,
        parent: None,
        order: ord,
        styled: true,
        style: menu_style(translation),
        color: window_fill(),
        hit_test: true,
        ui_window: true,
        context_menu: Some(ContextMenu { options: h, owner }),
        ..Node::plain_spec()
    }
}

/// One clickable entry node a menu spawn creates.
pub open spec fn spawned_entry(h: usize, container: usize, ord: u64, k: usize) -> Node {
    Node {
        alive: true,
        parent: Some(container),
        order: ord,
        styled: true,
        hit_test: true,
        color: entry_rest_fill(),
        menu_entry: Some(MenuEntry { list: h, index: k }),
        ..Node::plain_spec()
    }
}

/// One label node a menu spawn creates, under its entry.
pub open spec fn spawned_text(h: usize, entry: usize, ord: u64, k: usize) -> Node {
    Node {
        alive: true,
        parent: Some(entry),
        order: ord,
        styled: true,
        text_of: Some(MenuEntry { list: h, index: k }),
        ..Node::plain_spec()
    }
}

/// `post` is `pre` with one context menu spawned: the option list with the
/// given labels is registered, a container carrying the menu component sits
/// at the pointer, and each option got a clickable entry with a label child.
/// Nothing that existed before is touched.
pub open spec fn menu_spawned(
    pre: Scene,
    post: Scene,
    owner: Option<usize>,
    translation: Vec2i,
    opts: Seq<Seq<char>>,
) -> bool {
    let n = pre.nodes@.len() as int;
    let h = pre.option_lists@.len() as int;
    let m = opts.len() as int;
    &&& post.option_lists@.len() == h + 1
    &&& forall|k: int| 0 <= k < h ==> post.option_lists@[k] == pre.option_lists@[k]
    &&& labels(post.option_lists@[h]) == opts
    &&& post.nodes@.len() == n + 1 + 2 * m
    &&& forall|j: int| 0 <= j < n ==> post.nodes@[j] == pre.nodes@[j]
    &&& post.nodes@[n] == spawned_container(h as usize, owner, pre.next_order, translation)
    &&& forall|k: int|
        0 <= k < m ==> #[trigger] post.nodes@[n + 1 + 2 * k] == spawned_entry(
            h as usize,
            n as usize,
            (pre.next_order + 1 + 2 * k) as u64,
            k as usize,
        )
    &&& forall|k: int|
        0 <= k < m ==> #[trigger] post.nodes@[n + 2 + 2 * k] == spawned_text(
            h as usize,
            (n + 1 + 2 * k) as usize,
            (pre.next_order + 2 + 2 * k) as u64,
            k as usize,
        )
    &&& post.next_order == pre.next_order + 1 + 2 * m
}

/// Copy an option list, label for label.
fn clone_options(l: &ContextMenuOptions) -> (r: ContextMenuOptions)
    ensures
        labels(r) == labels(*l),
{
    let mut v: Vec<ContextMenuOption> = Vec::new();
    let n = l.0.len();
    let mut i: usize = 0;
    while i < n
        invariant
            n == l.0@.len(),
            i <= n,
            v@.len() == i,
            forall|k: int| 0 <= k < i ==> v@[k].label@ == l.0@[k].label@,
        decreases n - i,
    {
        let lab = l.0[i].label.clone();
        v.push(ContextMenuOption { label: lab });
        i = i + 1;
    }
    let r = ContextMenuOptions(v);
    proof {
        assert(labels(r) =~= labels(*l));
    }
    r
}

impl ContextMenu {
    /// Spawn a context menu at the pointer from an owned option list,
    /// recording the optional owner node it was spawned for.
    pub fn construct(
        scene: &mut Scene,
        options: ContextMenuOptions,
        owner: Option<usize>,
        translation: Vec2i,
    ) -> (menu: usize)
        requires
            old(scene).wf(),
            old(scene).next_order + 1 + 2 * options.0@.len() <= u64::MAX,
        ensures
            final(scene).wf(),
            menu == old(scene).nodes@.len(),
            menu_spawned(*old(scene), *final(scene), owner, translation, labels(options)),
    {
        let ghost orig = *scene;
        let ghost opts = labels(options);
        let m = options.0.len();
        let h = scene.register_options(options);
        let container = scene.spawn_node(
            Node {
                styled: true,
                style: Style {
                    absolute: true,
                    top: Val::Px(translation.y),
                    left: Val::Px(translation.x),
                    width: Val::Auto,
                    height: Val::Auto,
                },
                color: Rgba { r: 70, g: 70, b: 70, a: 70 },
                hit_test: true,
                ui_window: true,
                context_menu: Some(ContextMenu { options: h, owner }),
                ..Node::plain()
            },
            None,
        );
        let ghost n0 = orig.nodes@.len() as int;
        let mut k: usize = 0;
        while k < m
            invariant
                scene.wf(),
                k <= m,
                n0 == orig.nodes@.len(),
                container == n0,
                h as int == orig.option_lists@.len() as int,
                scene.option_lists@ == orig.option_lists@.push(scene.option_lists@[h as int]),
                labels(scene.option_lists@[h as int]) == opts,
                m == scene.option_lists@[h as int].0@.len(),
                opts.len() == m,
                orig.next_order + 1 + 2 * m <= u64::MAX,
                scene.next_order == orig.next_order + 1 + 2 * k,
                scene.nodes@.len() == n0 + 1 + 2 * k,
                forall|j: int| 0 <= j < n0 ==> scene.nodes@[j] == orig.nodes@[j],
                scene.nodes@[n0] == spawned_container(h, owner, orig.next_order, translation),
                forall|kk: int|
                    0 <= kk < k ==> #[trigger] scene.nodes@[n0 + 1 + 2 * kk] == spawned_entry(
                        h,
                        n0 as usize,
                        (orig.next_order + 1 + 2 * kk) as u64,
                        kk as usize,
                    ),
                forall|kk: int|
                    0 <= kk < k ==> #[trigger] scene.nodes@[n0 + 2 + 2 * kk] == spawned_text(
                        h,
                        (n0 + 1 + 2 * kk) as usize,
                        (orig.next_order + 2 + 2 * kk) as u64,
                        kk as usize,
                    ),
            decreases m - k,
        {
            let entry = scene.spawn_node(
                Node {
                    styled: true,
                    hit_test: true,
                    color: Rgba { r: 0, g: 0, b: 0, a: 0 },
                    menu_entry: Some(MenuEntry { list: h, index: k }),
                    ..Node::plain()
                },
                Some(container),
            );
            let _text = scene.spawn_node(
                Node {
                    styled: true,
                    text_of: Some(MenuEntry { list: h, index: k }),
                    ..Node::plain()
                },
                Some(entry),
            );
            k = k + 1;
        }
        container
    }
}

/// A live, styled, menu-owning node the pointer hovers this frame.
pub open spec fn owner_hovered(nodes: Seq<Node>, b: int) -> bool {
    &&& 0 <= b < nodes.len()
    &&& nodes[b].alive
    &&& nodes[b].styled
    &&& nodes[b].menu_options is Some
    &&& nodes[b].interaction == Interaction::Hovered
}

/// The hovered menu-owning node a right-click targets: the last such slot,
/// scanning the first `i` slots.
pub open spec fn hovered_owner(nodes: Seq<Node>, i: int) -> Option<int>
    decreases i,
{
    if i <= 0 {
        None
    } else if owner_hovered(nodes, i - 1) {
        Some(i - 1)
    } else {
        hovered_owner(nodes, i - 1)
    }
}

/// A found hovered owner really is one.
pub proof fn lemma_hovered_owner_found(nodes: Seq<Node>, i: int)
    ensures
        hovered_owner(nodes, i) matches Some(t) ==> owner_hovered(nodes, t),
    decreases i,
{
    if i > 0 {
        lemma_hovered_owner_found(nodes, i - 1);
    }
}

/// Some context menu is currently spawned.
pub open spec fn any_menu(nodes: Seq<Node>) -> bool {
    exists|i: int|
        0 <= i < nodes.len() && (#[trigger] nodes[i]).alive && nodes[i].context_menu is Some
}

/// How many nodes a right-click would spawn: a container plus an entry and
/// a label per option of the targeted list, or of the canvas-default list.
pub open spec fn menu_budget(s: Scene) -> int {
    match hovered_owner(s.nodes@, s.nodes@.len() as int) {
        Some(o) => {
            match s.nodes@[o].menu_options {
                Some(hh) => 1 + 2 * (s.option_lists@[hh as int].0@.len() as int),
                None => 3,
            }
        },
        None => 3,
    }
}

impl Scene {
    /// Is some context menu currently spawned?
    pub fn any_context_menu(&self) -> (r: bool)
        ensures
            r == any_menu(self.nodes@),
    {
        let n = self.nodes.len();
        let mut i: usize = 0;
        while i < n
            invariant
                n == self.nodes@.len(),
                i <= n,
                forall|m: int|
                    0 <= m < i ==> !((#[trigger] self.nodes@[m]).alive && self.nodes@[m].context_menu
                        is Some),
            decreases n - i,
        {
            let nd = self.nodes[i];
            if nd.alive && nd.context_menu.is_some() {
                return true;
            }
            i = i + 1;
        }
        false
    }

    /// The context-menu spawner: on a right-click (edge-triggered), target
    /// the last hovered menu-owning node and spawn a menu from a copy of its
    /// option list at the pointer, recording the owner. With no such node, a
    /// canvas-default menu with the single "Spawn" option is created instead,
    /// but only if no menu exists anywhere.
    pub fn context_menu(&mut self, right_just_pressed: bool, cursor_position: Vec2i)
        requires
            old(self).wf(),
            right_just_pressed ==> old(self).next_order + menu_budget(*old(self)) <= u64::MAX,
        ensures
            final(self).wf(),
            !right_just_pressed ==> *final(self) == *old(self),
            right_just_pressed ==> match hovered_owner(old(self).nodes@, old(self).nodes@.len() as int) {
                Some(o) => menu_spawned(
                    *old(self),
                    *final(self),
                    Some(o as usize),
                    cursor_position,
                    labels(
                        old(self).option_lists@[old(self).nodes@[o].menu_options->Some_0 as int],
                    ),
                ),
                None => {
                    if any_menu(old(self).nodes@) {
                        *final(self) == *old(self)
                    } else {
                        menu_spawned(
                            *old(self),
                            *final(self),
                            None,
                            cursor_position,
                            seq!["Spawn"@],
                        )
                    }
                },
            },
    {
        if !right_just_pressed {
            return ;
        }
        let n = self.nodes.len();
        let mut clicked: Option<usize> = None;
        let mut b: usize = 0;
        while b < n
            invariant
                n == self.nodes@.len(),
                b <= n,
                hovered_owner(self.nodes@, b as int) == (match clicked {
                    Some(t) => Some(t as int),
                    None => None::<int>,
                }),
                match clicked {
                    Some(t) => t < n,
                    None => true,
                },
            decreases n - b,
        {
            let nd = self.nodes[b];
            if nd.alive && nd.styled && nd.menu_options.is_some() && nd.interaction
                == Interaction::Hovered {
                clicked = Some(b);
            }
            b = b + 1;
        }
        match clicked {
            Some(o) => {
                proof {
                    assert(old(self).node_wf(o as int));
                    assert(hovered_owner(self.nodes@, self.nodes@.len() as int) == Some(o as int));
                    lemma_hovered_owner_found(self.nodes@, self.nodes@.len() as int);
                    assert(owner_hovered(self.nodes@, o as int));
                }
                let h = match self.nodes[o].menu_options {
                    Some(h) => h,
                    None => {
                        return ;
                    },
                };
                let copied = clone_options(&self.option_lists[h]);
                proof {
                    assert(labels(copied).len() == labels(self.option_lists@[h as int]).len());
                    assert(copied.0@.len() == self.option_lists@[h as int].0@.len());
                    assert(menu_budget(*old(self)) == 1 + 2 * (self.option_lists@[h as int].0@.len()
                        as int));
                }
                let _menu = ContextMenu::construct(self, copied, Some(o), cursor_position);
            },
            None => {
                proof {
                    assert(hovered_owner(self.nodes@, self.nodes@.len() as int) is None);
                }
                if !self.any_context_menu() {
                    let options = ContextMenuOptions::canvas();
                    let ghost lab = labels(options);
                    proof {
                        assert(lab =~= seq!["Spawn"@]);
                        assert(options.0@.len() == 1);
                    }
                    let _menu = ContextMenu::construct(self, options, None, cursor_position);
                    proof {
                        assert(lab == seq!["Spawn"@]);
                    }
                }
            },
        }
    }
}

/// A spawned menu the click this frame did not land on.
pub open spec fn menu_dismissed(nodes: Seq<Node>, m: int) -> bool {
    &&& 0 <= m < nodes.len()
    &&& nodes[m].alive
    &&& nodes[m].context_menu is Some
    &&& nodes[m].interaction == Interaction::Idle
}

/// Slot `j` falls in menu cleanup: some dismissed menu's subtree contains it.
pub open spec fn cleaned_node(nodes: Seq<Node>, j: int) -> bool {
    exists|mm: int| #[trigger] menu_dismissed(nodes, mm) && in_subtree(nodes, mm, j)
}

impl Scene {
    /// Menu cleanup: on any click (edge-triggered), despawn every spawned
    /// menu whose own interaction is none this frame — the click landed
    /// elsewhere — together with its whole subtree. A click on the menu
    /// itself leaves it alone.
    pub fn context_menu_cleanup(&mut self, any_just_pressed: bool)
        requires
            old(self).wf(),
        ensures
            final(self).wf(),
            !any_just_pressed ==> *final(self) == *old(self),
            any_just_pressed ==> {
                &&& final(self).nodes@.len() == old(self).nodes@.len()
                &&& forall|j: int|
                    0 <= j < old(self).nodes@.len() ==> final(self).nodes@[j] == (Node {
                        alive: old(self).nodes@[j].alive && !cleaned_node(old(self).nodes@, j),
                        ..old(self).nodes@[j]
                    })
                &&& final(self).option_lists == old(self).option_lists
                &&& final(self).next_order == old(self).next_order
            },
    {
        if !any_just_pressed {
            return ;
        }
        let ghost orig = *self;
        let n = self.nodes.len();
        let mut roots: Vec<usize> = Vec::new();
        let mut b: usize = 0;
        while b < n
            invariant
                *self == orig,
                orig.wf(),
                n == orig.nodes@.len(),
                b <= n,
                forall|k: int|
                    0 <= k < roots@.len() ==> menu_dismissed(orig.nodes@, #[trigger] roots@[k] as int)
                        && roots@[k] < n,
                forall|mm: int|
                    0 <= mm < b && #[trigger] menu_dismissed(orig.nodes@, mm) ==> exists|k: int|
                        0 <= k < roots@.len() && roots@[k] as int == mm,
            decreases n - b,
        {
            let ghost roots0 = roots@;
            let nd = self.nodes[b];
            if nd.alive && nd.context_menu.is_some() && nd.interaction == Interaction::Idle {
                roots.push(b);
            }
            proof {
                assert forall|mm: int|
                    0 <= mm < b + 1 && #[trigger] menu_dismissed(orig.nodes@, mm) implies exists|k: int|
                    0 <= k < roots@.len() && roots@[k] as int == mm by {
                    if mm < b {
                        let k = choose|k: int| 0 <= k < roots0.len() && roots0[k] as int == mm;
                        assert(roots@[k] as int == mm);
                    } else {
                        assert(roots@[roots@.len() - 1] as int == mm);
                    }
                }
            }
            b = b + 1;
        }
        let ghost total = roots@.len() as int;
        let mut t: usize = 0;
        while t < roots.len()
            invariant
                self.wf(),
                self.nodes@.len() == n,
                n == orig.nodes@.len(),
                t <= roots@.len(),
                roots@.len() == total,
                self.option_lists == orig.option_lists,
                self.next_order == orig.next_order,
                forall|k: int|
                    0 <= k < roots@.len() ==> menu_dismissed(orig.nodes@, #[trigger] roots@[k] as int)
                        && roots@[k] < n,
                forall|mm: int|
                    0 <= mm < n && #[trigger] menu_dismissed(orig.nodes@, mm) ==> exists|k: int|
                        0 <= k < roots@.len() && roots@[k] as int == mm,
                forall|j: int|
                    0 <= j < n ==> self.nodes@[j] == (Node {
                        alive: orig.nodes@[j].alive && !(exists|k: int|
                            0 <= k < t && in_subtree(orig.nodes@, #[trigger] roots@[k] as int, j)),
                        ..orig.nodes@[j]
                    }),
            decreases roots@.len() - t,
        {
            let w = roots[t];
            let ghost pre = *self;
            self.despawn_subtree(w);
            proof {
                assert forall|j: int| 0 <= j < n implies self.nodes@[j] == (Node {
                    alive: orig.nodes@[j].alive && !(exists|k: int|
                        0 <= k < t + 1 && in_subtree(orig.nodes@, #[trigger] roots@[k] as int, j)),
                    ..orig.nodes@[j]
                }) by {
                    lemma_in_subtree_congruent(pre.nodes@, orig.nodes@, w as int, j);
                    let felled_before = exists|k: int|
                        0 <= k < t && in_subtree(orig.nodes@, #[trigger] roots@[k] as int, j);
                    if felled_before {
                        let k = choose|k: int|
                            0 <= k < t && in_subtree(orig.nodes@, #[trigger] roots@[k] as int, j);
                        assert(0 <= k < t + 1 && in_subtree(orig.nodes@, roots@[k] as int, j));
                    }
                    if in_subtree(orig.nodes@, w as int, j) {
                        assert(0 <= t < t + 1 && in_subtree(orig.nodes@, roots@[t as int] as int, j));
                    }
                    if !felled_before && !in_subtree(orig.nodes@, w as int, j) {
                        assert forall|k: int|
                            0 <= k < t + 1 implies !in_subtree(
                            orig.nodes@,
                            #[trigger] roots@[k] as int,
                            j,
                        ) by {
                            if k < t {
                                assert(!(exists|kk: int|
                                    0 <= kk < t && in_subtree(
                                        orig.nodes@,
                                        #[trigger] roots@[kk] as int,
                                        j,
                                    )));
                            }
                        }
                    }
                }
            }
            t = t + 1;
        }
        proof {
            assert forall|j: int| 0 <= j < n implies (exists|k: int|
                0 <= k < total && in_subtree(orig.nodes@, #[trigger] roots@[k] as int, j))
                == cleaned_node(orig.nodes@, j) by {
                if exists|k: int|
                    0 <= k < total && in_subtree(orig.nodes@, #[trigger] roots@[k] as int, j) {
                    let k = choose|k: int|
                        0 <= k < total && in_subtree(orig.nodes@, #[trigger] roots@[k] as int, j);
                    assert(menu_dismissed(orig.nodes@, roots@[k] as int) && in_subtree(
                        orig.nodes@,
                        roots@[k] as int,
                        j,
                    ));
                }
                if cleaned_node(orig.nodes@, j) {
                    let mm = choose|mm: int|
                        #[trigger] menu_dismissed(orig.nodes@, mm) && in_subtree(orig.nodes@, mm, j);
                    let k = choose|k: int| 0 <= k < roots@.len() && roots@[k] as int == mm;
                    assert(in_subtree(orig.nodes@, roots@[k] as int, j));
                }
            }
        }
    }

    /// Menu-entry feedback: every entry whose interaction just changed is
    /// repainted — transparent at rest, black at a fifth alpha while hovered
    /// or pressed. Nothing else changes.
    pub fn context_menu_button(&mut self)
        requires
            old(self).wf(),
        ensures
            final(self).wf(),
            final(self).nodes@.len() == old(self).nodes@.len(),
            forall|j: int|
                0 <= j < old(self).nodes@.len() ==> final(self).nodes@[j] == entry_repaint(
                    old(self).nodes@[j],
                ),
            final(self).option_lists == old(self).option_lists,
            final(self).next_order == old(self).next_order,
    {
        let ghost orig = *self;
        let n = self.nodes.len();
        let mut i: usize = 0;
        while i < n
            invariant
                n == orig.nodes@.len(),
                self.nodes@.len() == n,
                i <= n,
                self.option_lists == orig.option_lists,
                self.next_order == orig.next_order,
                forall|m: int| 0 <= m < i ==> self.nodes@[m] == entry_repaint(orig.nodes@[m]),
                forall|m: int| i <= m < n ==> self.nodes@[m] == orig.nodes@[m],
            decreases n - i,
        {
            let nd = self.nodes[i];
            if nd.alive && nd.menu_entry.is_some() && nd.interaction_changed {
                let c = if nd.interaction == Interaction::Idle {
                    Rgba { r: 0, g: 0, b: 0, a: 0 }
                } else {
                    Rgba { r: 0, g: 0, b: 0, a: 20 }
                };
                self.nodes[i] = Node { color: c, ..nd };
            }
            i = i + 1;
        }
        proof {
            let s = *self;
            assert forall|m: int| 0 <= m < s.nodes@.len() implies #[trigger] s.node_wf(m) by {
                assert(orig.node_wf(m));
            }
        }
    }
}

/// One entry after the feedback pass.
pub open spec fn entry_repaint(n: Node) -> Node {
    if n.alive && n.menu_entry is Some && n.interaction_changed {
        Node {
            color: if n.interaction == Interaction::Idle {
                entry_rest_fill()
            } else {
                entry_active_fill()
            },
            ..n
        }
    } else {
        n
    }
}

/// A clickable entry bound to one immutable option.
#[derive(Debug)]
pub struct ContextMenuEventButton(pub ContextMenuOption);

/// A menu container template: the menu component and its visual node.
#[derive(Clone, Copy, Debug)]
pub struct ContextMenuBundle {
    pub context_menu: ContextMenu,
    pub node_bundle: crate::ui_window::NodeBundle,
}

impl ContextMenuBundle {
    /// The default menu style: absolutely positioned, sized by contents.
    pub fn default_style() -> (s: Style)
        ensures
            s == (Style {
                absolute: true,
                top: Val::Auto,
                left: Val::Auto,
                width: Val::Auto,
                height: Val::Auto,
            }),
    {
        Style { absolute: true, top: Val::Auto, left: Val::Auto, width: Val::Auto, height: Val::Auto }
    }

    /// The default menu visual: dark translucent fill, default menu style.
    pub fn default_node_bundle() -> (b: crate::ui_window::NodeBundle)
        ensures
            b.color == (Rgba { r: 20, g: 20, b: 20, a: 20 }),
            b.style == (Style {
                absolute: true,
                top: Val::Auto,
                left: Val::Auto,
                width: Val::Auto,
                height: Val::Auto,
            }),
    {
        crate::ui_window::NodeBundle {
            color: Rgba { r: 20, g: 20, b: 20, a: 20 },
            style: ContextMenuBundle::default_style(),
        }
    }

    /// Move the menu to a screen position.
    pub fn with_position(self, position: Vec2i) -> (b: ContextMenuBundle)
        ensures
            b.context_menu == self.context_menu,
            b.node_bundle.color == self.node_bundle.color,
            b.node_bundle.style == (Style {
                top: Val::Px(position.y),
                left: Val::Px(position.x),
                ..self.node_bundle.style
            }),
    {
        ContextMenuBundle {
            node_bundle: crate::ui_window::NodeBundle {
                style: Style {
                    top: Val::Px(position.y),
                    left: Val::Px(position.x),
                    ..self.node_bundle.style
                },
                ..self.node_bundle
            },
            ..self
        }
    }
}

impl ContextMenu {
    /// Wrap this menu component in the default container template.
    pub fn bundle(self) -> (b: ContextMenuBundle)
        ensures
            b.context_menu == self,
            b.node_bundle.color == (Rgba { r: 20, g: 20, b: 20, a: 20 }),
    {
        ContextMenuBundle { context_menu: self, node_bundle: ContextMenuBundle::default_node_bundle() }
    }
}

/// A menu-owning node's template: the option list and the interactive
/// markers that let hit testing target it.
#[derive(Debug)]
pub struct ContextMenuOptionsBundle {
    pub context_menu_options: ContextMenuOptions,
    pub interaction: Interaction,
}

impl ContextMenuOptions {
    /// Wrap this option list for attachment to a menu-owning node.
    pub fn bundle(self) -> (b: ContextMenuOptionsBundle)
        ensures
            b.context_menu_options == self,
            b.interaction == Interaction::Idle,
    {
        ContextMenuOptionsBundle { context_menu_options: self, interaction: Interaction::Idle }
    }
}

/// A spawned menu occupies the scene: after any menu spawn, a menu exists,
/// so a second canvas right-click is suppressed.
pub proof fn lemma_menu_spawn_occupies(
    pre: Scene,
    post: Scene,
    owner: Option<usize>,
    translation: Vec2i,
    opts: Seq<Seq<char>>,
)
    requires
        menu_spawned(pre, post, owner, translation, opts),
    ensures
        any_menu(post.nodes@),
{
    let n = pre.nodes@.len() as int;
    assert(post.nodes@[n].alive && post.nodes@[n].context_menu is Some);
}

/// Cleanup respects self-clicks: with a single spawned menu, a click landing
/// on the menu leaves it alive, and a click landing anywhere else fells it.
pub proof fn lemma_cleanup_self_click(pre: Seq<Node>, post: Seq<Node>, m: int)
    requires
        0 <= m < pre.len(),
        pre[m].alive,
        pre[m].context_menu is Some,
        forall|j: int|
            0 <= j < pre.len() && j != m ==> !((#[trigger] pre[j]).alive && pre[j].context_menu
                is Some),
        post.len() == pre.len(),
        forall|j: int|
            0 <= j < pre.len() ==> #[trigger] post[j] == (Node {
                alive: pre[j].alive && !cleaned_node(pre, j),
                ..pre[j]
            }),
    ensures
        pre[m].interaction != Interaction::Idle ==> post[m].alive,
        pre[m].interaction == Interaction::Idle ==> !post[m].alive,
{
    if pre[m].interaction != Interaction::Idle {
        if cleaned_node(pre, m) {
            let mm = choose|mm: int| #[trigger] menu_dismissed(pre, mm) && in_subtree(pre, mm, m);
            assert(mm == m);
            assert(false);
        }
    } else {
        assert(menu_dismissed(pre, m));
        assert(in_subtree(pre, m, m));
        assert(cleaned_node(pre, m));
    }
}

} // verus!
