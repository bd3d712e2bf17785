//! The logic of widgets.

pub mod annotation_canvas;
pub mod color_picker;
pub mod keyboard_wrapper;
pub mod output_arrangement;
pub mod output_selection;
pub mod rectangle_selection;
pub mod screenshot;
pub mod selection_indicator;
