pub mod font_import_options;
pub mod gif_import;
pub mod new_image;
pub mod rascii_import;
pub mod system_font;
