//! End-to-end checks of the window and menu passes on concrete scenes.

use ui_windows::absolute_button::{AbsoluteInteraction, Interaction};
use ui_windows::context_menu::{ContextMenuOption, ContextMenuOptions};
use ui_windows::geometry::{ab_point_intersect, saturating_add_i64, Vec2i};
use ui_windows::scene::{Node, Rgba, Scene, Style, Val};
use ui_windows::ui_window::{setup, UiButton, UiButtonAction, UiWindowBundle};

fn v(x: i64, y: i64) -> Vec2i {
    Vec2i { x, y }
}

#[test]
fn containment_center_and_edges() {
    let t = v(100, -40);
    let s = v(2000, 2000);
    assert!(ab_point_intersect(t, t, s));
    assert!(ab_point_intersect(v(1100, -40), t, s));
    assert!(!ab_point_intersect(v(1101, -40), t, s));
    assert!(!ab_point_intersect(v(100, 961), t, s));
    assert!(ab_point_intersect(v(100, 960), t, s));
    assert!(!ab_point_intersect(v(-901, -40), t, s));
}

#[test]
fn saturating_add_clamps() {
    assert_eq!(saturating_add_i64(1, 2), 3);
    assert_eq!(saturating_add_i64(i64::MAX, 1), i64::MAX);
    assert_eq!(saturating_add_i64(i64::MIN, -1), i64::MIN);
    assert_eq!(saturating_add_i64(-5, 2), -3);
}

#[test]
fn absolute_interaction_states() {
    let mut scene = Scene::new();
    let w = UiWindowBundle::default_bundle().construct_borderless(&mut scene);
    scene.set_layout(w, v(0, 0), v(2000, 2000), 1);
    scene.absolute_interaction(Some(v(0, 0)), false);
    assert_eq!(scene.nodes[w].absolute, AbsoluteInteraction::Hovered);
    scene.absolute_interaction(Some(v(0, 0)), true);
    assert_eq!(scene.nodes[w].absolute, AbsoluteInteraction::Pressed);
    scene.absolute_interaction(Some(v(5000, 0)), true);
    assert_eq!(scene.nodes[w].absolute, AbsoluteInteraction::Idle);
    // Without a pointer position the pass is skipped and state persists.
    scene.absolute_interaction(Some(v(0, 0)), false);
    scene.absolute_interaction(None, true);
    assert_eq!(scene.nodes[w].absolute, AbsoluteInteraction::Hovered);
}

#[test]
fn absolute_interaction_idempotent() {
    let mut scene = Scene::new();
    let w = UiWindowBundle::default_bundle().construct_borderless(&mut scene);
    scene.set_layout(w, v(0, 0), v(2000, 2000), 1);
    scene.absolute_interaction(Some(v(0, 0)), false);
    assert!(scene.nodes[w].absolute_changed);
    scene.absolute_interaction(Some(v(0, 0)), false);
    assert_eq!(scene.nodes[w].absolute, AbsoluteInteraction::Hovered);
    assert!(!scene.nodes[w].absolute_changed);
}

#[test]
fn interaction_flags() {
    let a = AbsoluteInteraction::Idle;
    assert!(a.none() && !a.pressed() && !a.hovered());
    assert!(AbsoluteInteraction::Pressed.pressed());
    assert!(AbsoluteInteraction::Hovered.hovered());
    assert!(UiButtonAction::CloseWindow.is_close_window());
    assert!(!UiButtonAction::Nothing.is_close_window());
}

fn hovered_windows_with_indices(indices: &[u32]) -> (Scene, Vec<usize>) {
    let mut scene = Scene::new();
    let root = setup(&mut scene);
    let mut windows = Vec::new();
    for &ix in indices {
        // Windows need a parent to take part in promotion: spawn under the
        // shared window parent.
        let w = scene.spawn_node(
            Node { styled: true, ui_window: true, hit_test: true, ..Node::plain() },
            Some(root),
        );
        scene.set_layout(w, v(0, 0), v(2000, 2000), ix);
        windows.push(w);
    }
    scene.absolute_interaction(Some(v(0, 0)), false);
    (scene, windows)
}

#[test]
fn single_promotion_per_press() {
    let (mut scene, windows) = hovered_windows_with_indices(&[3, 1, 4, 1, 5]);
    let orders_before: Vec<u64> = windows.iter().map(|&w| scene.nodes[w].order).collect();
    let promoted_order = scene.next_order;
    scene.window_sorting(true);
    // Exactly the window with stacking index 5 moved to the front.
    assert_eq!(scene.nodes[windows[4]].order, promoted_order);
    for (k, &w) in windows.iter().enumerate() {
        if k != 4 {
            assert_eq!(scene.nodes[w].order, orders_before[k]);
        }
    }
}

#[test]
fn promotion_without_press_is_noop() {
    let (mut scene, windows) = hovered_windows_with_indices(&[3, 1, 4]);
    let orders_before: Vec<u64> = windows.iter().map(|&w| scene.nodes[w].order).collect();
    scene.window_sorting(false);
    for (k, &w) in windows.iter().enumerate() {
        assert_eq!(scene.nodes[w].order, orders_before[k]);
    }
}

#[test]
fn drag_moves_nearest_positionable_ancestor_only() {
    let mut scene = Scene::new();
    // wrapper <- window (positioned) <- inner bar <- pressed bar
    let wrapper = scene.spawn_node(
        Node { styled: true, ..Node::plain() },
        None,
    );
    let mut winstyle = Style::plain();
    winstyle.top = Val::Px(100);
    winstyle.left = Val::Px(200);
    let window = scene.spawn_node(
        Node { styled: true, ui_window: true, style: winstyle, ..Node::plain() },
        Some(wrapper),
    );
    let mid = scene.spawn_node(
        Node { styled: true, ui_window_bar: true, ..Node::plain() },
        Some(window),
    );
    let bar = scene.spawn_node(
        Node { styled: true, ui_window_bar: true, hit_test: true, ..Node::plain() },
        Some(mid),
    );
    scene.set_interaction(bar, Interaction::Pressed);
    scene.window_movement(true, Some(v(30, -20)));
    assert_eq!(scene.nodes[window].style.top, Val::Px(80));
    assert_eq!(scene.nodes[window].style.left, Val::Px(230));
    assert_eq!(scene.nodes[wrapper].style, Style::plain());
    assert_eq!(scene.nodes[mid].style, Style::plain());
}

#[test]
fn drag_without_velocity_is_noop() {
    let mut scene = Scene::new();
    let w = UiWindowBundle::default_bundle().construct(&mut scene);
    let bar = w + 1;
    scene.set_interaction(bar, Interaction::Pressed);
    let style_before = scene.nodes[w].style;
    scene.window_movement(true, None);
    assert_eq!(scene.nodes[w].style, style_before);
    scene.window_movement(false, Some(v(10, 10)));
    assert_eq!(scene.nodes[w].style, style_before);
}

#[test]
fn close_despawns_exactly_the_subtree() {
    let mut scene = Scene::new();
    let w = UiWindowBundle::default_bundle().construct(&mut scene);
    let bar = w + 1;
    let button = w + 2;
    // Window contents: two extra descendants.
    let child = scene.spawn_node(Node { styled: true, ..Node::plain() }, Some(w));
    let grandchild = scene.spawn_node(Node { styled: true, ..Node::plain() }, Some(child));
    // An unrelated sibling window.
    let other = UiWindowBundle::default_bundle().construct(&mut scene);
    scene.set_interaction(button, Interaction::Pressed);
    scene.close_window();
    assert!(!scene.nodes[w].alive);
    assert!(!scene.nodes[bar].alive);
    assert!(!scene.nodes[button].alive);
    assert!(!scene.nodes[child].alive);
    assert!(!scene.nodes[grandchild].alive);
    assert!(scene.nodes[other].alive);
    assert!(scene.nodes[other + 1].alive);
    assert!(scene.nodes[other + 2].alive);
}

#[test]
fn close_needs_edge_trigger() {
    let mut scene = Scene::new();
    let w = UiWindowBundle::default_bundle().construct(&mut scene);
    let button = w + 2;
    scene.set_interaction(button, Interaction::Pressed);
    scene.clear_changed();
    // Held but not newly pressed this frame: nothing closes.
    scene.close_window();
    assert!(scene.nodes[w].alive);
}

#[test]
fn canvas_menu_spawns_once() {
    let mut scene = Scene::new();
    scene.context_menu(true, v(500, 600));
    // Container plus one entry and its label.
    assert_eq!(scene.nodes.len(), 3);
    let container = &scene.nodes[0];
    assert!(container.alive);
    assert!(container.context_menu.is_some());
    assert_eq!(container.style.top, Val::Px(600));
    assert_eq!(container.style.left, Val::Px(500));
    let menu = container.context_menu.unwrap();
    assert_eq!(menu.owner, None);
    assert_eq!(scene.option_lists[menu.options].0.len(), 1);
    assert_eq!(scene.option_lists[menu.options].0[0].label, "Spawn");
    // A second canvas right-click is suppressed while the menu exists.
    scene.context_menu(true, v(700, 800));
    assert_eq!(scene.nodes.len(), 3);
}

#[test]
fn owner_menu_copies_options() {
    let mut scene = Scene::new();
    let opts = ContextMenuOptions::from_options(vec![
        ContextMenuOption { label: String::from("Cut") },
        ContextMenuOption { label: String::from("Paste") },
    ]);
    let h = scene.register_options(opts);
    let owner = scene.spawn_node(
        Node { styled: true, hit_test: true, menu_options: Some(h), ..Node::plain() },
        None,
    );
    scene.set_interaction(owner, Interaction::Hovered);
    let before = scene.nodes.len();
    scene.context_menu(true, v(10, 20));
    assert_eq!(scene.nodes.len(), before + 5);
    let container = &scene.nodes[before];
    let menu = container.context_menu.unwrap();
    assert_eq!(menu.owner, Some(owner));
    assert_ne!(menu.options, h);
    assert_eq!(scene.option_lists[menu.options].0.len(), 2);
    assert_eq!(scene.option_lists[menu.options].0[0].label, "Cut");
    assert_eq!(scene.option_lists[menu.options].0[1].label, "Paste");
    // Entries point back at the copied list, labels under entries.
    let entry = &scene.nodes[before + 1];
    assert_eq!(entry.parent, Some(before));
    assert_eq!(entry.menu_entry.unwrap().index, 0);
    let text = &scene.nodes[before + 2];
    assert_eq!(text.parent, Some(before + 1));
}

#[test]
fn cleanup_respects_self_clicks() {
    let mut scene = Scene::new();
    scene.context_menu(true, v(0, 0));
    let menu = 0;
    // Click landing on the menu: the host reports interaction on it.
    scene.set_interaction(menu, Interaction::Pressed);
    scene.context_menu_cleanup(true);
    assert!(scene.nodes[menu].alive);
    // Click landing elsewhere: interaction none, the menu and its subtree fall.
    scene.set_interaction(menu, Interaction::Idle);
    scene.context_menu_cleanup(true);
    assert!(!scene.nodes[menu].alive);
    assert!(!scene.nodes[menu + 1].alive);
    assert!(!scene.nodes[menu + 2].alive);
}

#[test]
fn cleanup_needs_a_click() {
    let mut scene = Scene::new();
    scene.context_menu(true, v(0, 0));
    scene.context_menu_cleanup(false);
    assert!(scene.nodes[0].alive);
}

#[test]
fn menu_entry_feedback() {
    let mut scene = Scene::new();
    scene.context_menu(true, v(0, 0));
    let entry = 1;
    assert_eq!(scene.nodes[entry].color, Rgba { r: 0, g: 0, b: 0, a: 0 });
    scene.set_interaction(entry, Interaction::Hovered);
    scene.context_menu_button();
    assert_eq!(scene.nodes[entry].color, Rgba { r: 0, g: 0, b: 0, a: 20 });
    scene.set_interaction(entry, Interaction::Idle);
    scene.context_menu_button();
    assert_eq!(scene.nodes[entry].color, Rgba { r: 0, g: 0, b: 0, a: 0 });
    // Without a change notification the color is left alone.
    scene.set_interaction(entry, Interaction::Hovered);
    scene.context_menu_button();
    scene.clear_changed();
    scene.set_interaction(entry, Interaction::Hovered);
    scene.context_menu_button();
    assert_eq!(scene.nodes[entry].color, Rgba { r: 0, g: 0, b: 0, a: 20 });
}

#[test]
fn window_construction_defaults() {
    let mut scene = Scene::new();
    let w = UiWindowBundle::default_bundle().construct(&mut scene);
    assert_eq!(scene.nodes.len(), 3);
    let window = &scene.nodes[w];
    assert!(window.ui_window && window.styled && window.hit_test);
    assert_eq!(window.color, Rgba { r: 70, g: 70, b: 70, a: 70 });
    assert_eq!(window.style.width, Val::Px(2000));
    assert_eq!(window.style.height, Val::Px(2000));
    assert!(window.style.absolute);
    let bar = &scene.nodes[w + 1];
    assert!(bar.ui_window_bar);
    assert_eq!(bar.parent, Some(w));
    assert_eq!(bar.color, Rgba { r: 100, g: 100, b: 100, a: 100 });
    assert_eq!(bar.style.width, Val::Percent(100));
    assert_eq!(bar.style.height, Val::Px(200));
    let button = &scene.nodes[w + 2];
    assert_eq!(button.parent, Some(w + 1));
    assert_eq!(button.button_action, Some(UiButtonAction::CloseWindow));
    assert_eq!(button.color, Rgba { r: 0, g: 0, b: 0, a: 100 });
    assert_eq!(button.style.width, Val::Px(175));
    assert_eq!(button.style.height, Val::Px(175));
}

#[test]
fn screen_position_centers_the_window() {
    let b = UiWindowBundle::default_bundle().with_screen_position(v(100, 50));
    assert_eq!(b.node_bundle.style.left, Val::Px(-900));
    assert_eq!(b.node_bundle.style.top, Val::Px(-950));
    // Without pixel width and height the position is left alone.
    let mut s = Style::plain();
    s.width = Val::Auto;
    let b2 = UiWindowBundle::default_bundle().with_style(s).with_screen_position(v(100, 50));
    assert_eq!(b2.node_bundle.style.top, Val::Auto);
}

#[test]
fn option_list_builders() {
    let base = ContextMenuOptions::from_options(vec![ContextMenuOption {
        label: String::from("One"),
    }]);
    let both = base.with(vec![ContextMenuOption { label: String::from("Two") }]);
    assert_eq!(both.0.len(), 2);
    assert_eq!(both.0[0].label, "One");
    assert_eq!(both.0[1].label, "Two");
    let canvas = ContextMenuOptions::canvas();
    assert_eq!(canvas.0.len(), 1);
    assert_eq!(canvas.0[0].label, "Spawn");
}

#[test]
fn menu_bundle_defaults() {
    let nb = ui_windows::context_menu::ContextMenuBundle::default_node_bundle();
    assert_eq!(nb.color, Rgba { r: 20, g: 20, b: 20, a: 20 });
    assert!(nb.style.absolute);
    assert_eq!(nb.style.width, Val::Auto);
    let menu = ui_windows::context_menu::ContextMenu { options: 0, owner: None };
    let b = menu.bundle().with_position(v(70, 90));
    assert_eq!(b.context_menu, menu);
    assert_eq!(b.node_bundle.style.left, Val::Px(70));
    assert_eq!(b.node_bundle.style.top, Val::Px(90));
    let ob = ContextMenuOptions::canvas().bundle();
    assert_eq!(ob.interaction, Interaction::Idle);
    assert_eq!(ob.context_menu_options.0[0].label, "Spawn");
}

#[test]
fn close_button_template() {
    let b = UiButton::new_close_window();
    assert!(b.ui_button_action.is_close_window());
    assert!(!b.mouse_over && !b.pressed);
    let d = UiButton::default_button();
    assert_eq!(d.ui_button_action, UiButtonAction::Nothing);
}
