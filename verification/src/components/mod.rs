pub mod canvas;
pub mod export;
pub mod file_ops;
pub mod font_editor;
pub mod image_editor;
pub mod status_bar;
pub mod toolbox;
