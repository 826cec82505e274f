use figby::keymap::{format_shortcut, global_shortcut_label, lookup_global, GlobalAction, Scope};
use figby::keys::{KeyCode, KeyModifiers};

#[test]
fn lookup_matches_exact_modifiers() {
    assert_eq!(lookup_global(KeyCode::Char('s'), KeyModifiers::control()), Some(GlobalAction::FileSave));
    assert_eq!(
        lookup_global(KeyCode::Char('s'), KeyModifiers::control().union(KeyModifiers::shift())),
        Some(GlobalAction::FileSaveAs)
    );
    assert_eq!(lookup_global(KeyCode::Char('s'), KeyModifiers::none()), None);
    assert_eq!(lookup_global(KeyCode::Char('?'), KeyModifiers::shift()), Some(GlobalAction::CycleDrawer));
    assert_eq!(lookup_global(KeyCode::F(11), KeyModifiers::none()), Some(GlobalAction::ToggleZenMode));
    assert_eq!(lookup_global(KeyCode::Left, KeyModifiers::alt()), Some(GlobalAction::CycleTabPrev));
}

#[test]
fn shortcut_text() {
    assert_eq!(
        format_shortcut(KeyModifiers::control().union(KeyModifiers::shift()), KeyCode::Char('s')),
        "Ctrl+Shift+S"
    );
    assert_eq!(format_shortcut(KeyModifiers::none(), KeyCode::F(5)), "F5");
    assert_eq!(format_shortcut(KeyModifiers::alt(), KeyCode::Left), "Alt+Left");
    assert_eq!(format_shortcut(KeyModifiers::none(), KeyCode::Char('?')), "?");
}

#[test]
fn labels_come_from_first_binding() {
    assert_eq!(global_shortcut_label(GlobalAction::Redo), Some("Ctrl+Shift+Z".to_string()));
    assert_eq!(global_shortcut_label(GlobalAction::Quit), Some("Q".to_string()));
    assert_eq!(global_shortcut_label(GlobalAction::NextMode), Some("Tab".to_string()));
    assert_eq!(Scope::FontCharEditor.label(), "Font Char Editor");
    assert_eq!(Scope::LayerPanel.label(), "Layer Panel");
}
