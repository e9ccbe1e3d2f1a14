//! A retained-mode, draggable-window and context-menu layer over a generic
//! scene graph: absolute (occlusion-bypassing) hit-testing, window z-order
//! promotion, drag-to-move with parent-chain traversal, window closing via
//! ancestor search, and transient context-menu spawn and cleanup.
//!
//! The host runtime (layout, rendering, raw input) is an external
//! collaborator: each frame it writes the computed geometry and interaction
//! state into the [`scene::Scene`] model and then runs the per-frame passes
//! in a fixed order. All lengths are in tenths of a pixel so that half-pixel
//! sizes stay exact; color channels are in hundredths of unit intensity.

pub mod absolute_button;
pub mod context_menu;
pub mod geometry;
pub mod scene;
pub mod ui_window;
