use figby::image_editor::{AdjustmentMode, AsciiMode, ImageEditor, ImageEffect};
use figby::keys::KeyCode;

#[test]
fn test_image_editor_key_path_entry() {
    let mut editor = ImageEditor::new();
    assert!(!editor.entering_path());

    assert!(editor.handle_key(KeyCode::Char('o')).0);
    assert!(editor.entering_path());
    assert!(editor.path_buffer().is_empty());

    editor.handle_key(KeyCode::Char('t'));
    editor.handle_key(KeyCode::Char('e'));
    editor.handle_key(KeyCode::Char('s'));
    editor.handle_key(KeyCode::Char('t'));
    assert_eq!(editor.path_buffer(), "test");

    editor.handle_key(KeyCode::Backspace);
    assert_eq!(editor.path_buffer(), "tes");

    editor.handle_key(KeyCode::Esc);
    assert!(!editor.entering_path());
    assert!(editor.path_buffer().is_empty());
}

#[test]
fn test_image_editor_key_mode_toggle() {
    let mut editor = ImageEditor::new();
    editor.target_width = 40;
    assert_eq!(editor.mode(), AsciiMode::Grayscale);

    assert_eq!(editor.handle_key(KeyCode::Char('c')), (true, ImageEffect::Reapply));
    assert_eq!(editor.mode(), AsciiMode::Color);

    assert!(editor.handle_key(KeyCode::Char('C')).0);
    assert_eq!(editor.mode(), AsciiMode::Grayscale);
}

#[test]
fn test_image_editor_key_adjustment_mode_selectors() {
    let mut editor = ImageEditor::new();

    assert_eq!(editor.adjustment_mode(), AdjustmentMode::Off);

    assert!(editor.handle_key(KeyCode::Char('b')).0);
    assert_eq!(editor.adjustment_mode(), AdjustmentMode::Brightness);

    assert!(editor.handle_key(KeyCode::Char('k')).0);
    assert_eq!(editor.adjustment_mode(), AdjustmentMode::Contrast);

    assert!(editor.handle_key(KeyCode::Char('t')).0);
    assert_eq!(editor.adjustment_mode(), AdjustmentMode::Threshold);

    assert!(editor.handle_key(KeyCode::Char('w')).0);
    assert_eq!(editor.adjustment_mode(), AdjustmentMode::TargetWidth);

    assert!(editor.handle_key(KeyCode::Esc).0);
    assert_eq!(editor.adjustment_mode(), AdjustmentMode::Off);
    assert!(!editor.handle_key(KeyCode::Esc).0);
}

#[test]
fn test_image_editor_key_adjustment_increase_decrease() {
    let mut editor = ImageEditor::new();
    editor.target_width = 40;

    editor.handle_key(KeyCode::Char('b'));
    let before = editor.brightness();
    editor.handle_key(KeyCode::Char('+'));
    assert_eq!(editor.brightness(), before + 5, "brightness should increase by 5");

    editor.handle_key(KeyCode::Char('k'));
    assert_eq!(editor.handle_key(KeyCode::Char('-')), (true, ImageEffect::ContrastDown));

    editor.handle_key(KeyCode::Char('w'));
    let before_width = editor.target_width;
    editor.handle_key(KeyCode::Char('+'));
    assert_eq!(editor.target_width, before_width + 4, "target_width should increase by 4");
}

#[test]
fn test_image_editor_key_direct_toggles() {
    let mut editor = ImageEditor::new();
    editor.target_width = 40;

    assert!(!editor.invert());
    editor.handle_key(KeyCode::Char('i'));
    assert!(editor.invert(), "i should toggle invert on");
    editor.handle_key(KeyCode::Char('I'));
    assert!(!editor.invert(), "I should toggle invert off");

    assert!(!editor.dither());
    editor.handle_key(KeyCode::Char('d'));
    assert!(editor.dither(), "d should toggle dither on");
    editor.handle_key(KeyCode::Char('D'));
    assert!(!editor.dither(), "D should toggle dither off");

    assert!(!editor.braille());
    editor.handle_key(KeyCode::Char('y'));
    assert!(editor.braille(), "y should toggle braille on");
    editor.handle_key(KeyCode::Char('Y'));
    assert!(!editor.braille(), "Y should toggle braille off");
}

#[test]
fn image_editor_steps_are_clamped() {
    let mut editor = ImageEditor::new();
    editor.handle_key(KeyCode::Char('b'));
    for _ in 0..60 {
        editor.handle_key(KeyCode::Char('='));
    }
    assert_eq!(editor.brightness(), 255);
    for _ in 0..120 {
        editor.handle_key(KeyCode::Char('_'));
    }
    assert_eq!(editor.brightness(), -255);
    editor.handle_key(KeyCode::Char('t'));
    for _ in 0..20 {
        editor.handle_key(KeyCode::Char('+'));
    }
    assert_eq!(editor.threshold(), 255);
    editor.handle_key(KeyCode::Char('w'));
    for _ in 0..30 {
        editor.handle_key(KeyCode::Char('-'));
    }
    assert_eq!(editor.target_width, 1);
    assert!(!ImageEditor::new().handle_key(KeyCode::Char('+')).0);
}

#[test]
fn image_editor_enter_asks_to_load_and_reset() {
    let mut editor = ImageEditor::new();
    editor.handle_key(KeyCode::Char('o'));
    assert_eq!(editor.handle_key(KeyCode::Enter), (true, ImageEffect::Nothing));
    editor.handle_key(KeyCode::Char('o'));
    editor.handle_key(KeyCode::Char('a'));
    assert_eq!(editor.handle_key(KeyCode::Enter), (true, ImageEffect::Load("a".to_string())));
    assert!(!editor.finish_load(Err("no such file".to_string())));
    assert_eq!(editor.error_message(), Some("Failed to load image: no such file"));
    assert!(!editor.finish_load(Ok((0, 3))));
    assert_eq!(editor.error_message(), Some("Loaded image is empty"));
    editor.invert = true;
    editor.brightness = 40;
    assert!(editor.finish_load(Ok((2, 3))));
    assert_eq!(editor.error_message(), None);
    assert!(!editor.invert());
    assert_eq!(editor.brightness(), 0);
    editor.braille = true;
    assert_eq!(editor.handle_key(KeyCode::Char('R')), (true, ImageEffect::Reset));
    assert!(!editor.braille());
}

#[test]
fn image_editor_status_line() {
    let mut editor = ImageEditor::new();
    assert_eq!(editor.adjustment_status("1.0", false), "[Gray]");
    editor.adjustment_mode = AdjustmentMode::Brightness;
    editor.brightness = -15;
    editor.invert = true;
    editor.dither = true;
    assert_eq!(editor.adjustment_status("1.0", false), "[Brightness[-15] B:-15 Inv Dither Gray]");
    editor.adjustment_mode = AdjustmentMode::Contrast;
    editor.brightness = 5;
    editor.mode = AsciiMode::Color;
    editor.braille = true;
    assert_eq!(editor.adjustment_status("1.3", true), "[Contrast[1.3] B:+5 C:1.3 Inv Braille Dither Color]");
    editor.adjustment_mode = AdjustmentMode::TargetWidth;
    assert_eq!(editor.adjustment_status("1.3", true), "[Width[80] B:+5 C:1.3 Inv Braille Dither Color]");
}
