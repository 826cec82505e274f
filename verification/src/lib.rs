use vstd::prelude::*;

pub mod browse;
pub mod brush;
pub mod canvas;
pub mod canvas_view;
pub mod components;
pub mod dialogs;
pub mod events;
pub mod export;
pub mod file_ops;
pub mod font;
pub mod font_editor;
pub mod image_editor;
pub mod keymap;
pub mod keys;
pub mod layer_labels;
pub mod layer_panel;
pub mod layout;
pub mod layers;
pub mod light_panel;
pub mod lighting;
pub mod text;

verus! {

} // verus!
