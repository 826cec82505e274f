use figby::dialogs::new_image::{Field, NewImageDialog};
use figby::keys::KeyCode;

fn dialog() -> NewImageDialog {
    NewImageDialog::new(vec!["ansi".to_string(), "c64".to_string(), "pico".to_string()])
}

#[test]
fn new_image_defaults_and_enter() {
    let mut d = dialog();
    assert!(!d.active);
    assert_eq!(d.width_buffer, "80");
    assert_eq!(d.height_buffer, "24");
    assert_eq!(d.palette_label(), "ansi");
    d.width_buffer = "5".to_string();
    d.enter_new_image();
    assert!(d.active);
    assert_eq!(d.width_buffer, "80");
    assert_eq!(d.selected_field, Field::Width);
    assert_eq!(NewImageDialog::new(Vec::new()).palette_label(), "(none)");
}

#[test]
fn new_image_typing_and_confirm() {
    let mut d = dialog();
    d.enter_new_image();
    d.handle_key(KeyCode::Backspace);
    d.handle_key(KeyCode::Backspace);
    d.handle_key(KeyCode::Char('1'));
    d.handle_key(KeyCode::Char('2'));
    d.handle_key(KeyCode::Char('0'));
    assert_eq!(d.width_buffer, "120");
    assert!(!d.handle_key(KeyCode::Char('x')));
    d.handle_key(KeyCode::Tab);
    assert_eq!(d.selected_field, Field::Height);
    d.handle_key(KeyCode::Tab);
    assert_eq!(d.selected_field, Field::Palette);
    d.handle_key(KeyCode::Right);
    d.handle_key(KeyCode::Right);
    d.handle_key(KeyCode::Right);
    assert_eq!(d.palette_label(), "pico");
    d.handle_key(KeyCode::Left);
    assert_eq!(d.palette_label(), "c64");
    d.confirm();
    assert!(d.confirmed);
    assert!(!d.active);
    assert_eq!(d.result_width, 120);
    assert_eq!(d.result_height, 24);
    assert_eq!(d.result_palette_name, "c64");
    assert_eq!(d.result_palette_index, 1);
}

#[test]
fn new_image_refuses_bad_sizes() {
    let mut d = dialog();
    d.enter_new_image();
    d.width_buffer = "0".to_string();
    d.confirm();
    assert_eq!(d.error_message, "Width must be 1-65535");
    assert!(!d.confirmed);
    d.width_buffer = "10".to_string();
    d.height_buffer = String::new();
    d.confirm();
    assert_eq!(d.error_message, "Height must be 1-65535");
    assert_eq!(d.selected_field, Field::Height);
}
