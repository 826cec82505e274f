use vstd::prelude::*;

use crate::keys::{KeyCode, KeyModifiers, MOD_ALT, MOD_CONTROL, MOD_NONE, MOD_SHIFT};
use crate::text::{copy_string, decimal, push_char, push_decimal, push_str};

verus! {

/// The actions bound to global shortcuts.
#[derive(Debug, Clone, Copy, PartialEq, Eq, Structural)]
pub enum GlobalAction {
    FileNew,
    FileOpen,
    FileSave,
    FileSaveAs,
    Export,
    Undo,
    Redo,
    ToggleUndoPanel,
    ToggleRenderMode,
    ToggleZenMode,
    CycleDrawer,
    ToggleKeybindings,
    ToggleTimeline,
    OpenTweenPanel,
    CycleTabPrev,
    CycleTabNext,
    NextMode,
    PrevMode,
    Quit,
}

/// A global shortcut: the modifiers and key that trigger an action.
#[derive(Debug, Clone, Copy, PartialEq, Eq, Structural)]
pub struct KeyDispatch {
    pub modifiers: KeyModifiers,
    pub key_code: KeyCode,
    pub action: GlobalAction,
}

/// Control and Shift together.
pub const MOD_CONTROL_SHIFT: u8 = 3;

/// The global shortcut at `i`, in the order they are looked up.
pub open spec fn dispatch_at(i: int) -> KeyDispatch {
    let (m, k, a) = if i == 0 {
        (MOD_CONTROL, KeyCode::Char('n'), GlobalAction::FileNew)
    } else if i == 1 {
        (MOD_CONTROL, KeyCode::Char('o'), GlobalAction::FileOpen)
    } else if i == 2 {
        (MOD_CONTROL, KeyCode::Char('s'), GlobalAction::FileSave)
    } else if i == 3 {
        (MOD_CONTROL_SHIFT, KeyCode::Char('s'), GlobalAction::FileSaveAs)
    } else if i == 4 {
        (MOD_CONTROL, KeyCode::Char('e'), GlobalAction::Export)
    } else if i == 5 {
        (MOD_CONTROL, KeyCode::Char('z'), GlobalAction::Undo)
    } else if i == 6 {
        (MOD_CONTROL_SHIFT, KeyCode::Char('z'), GlobalAction::Redo)
    } else if i == 7 {
        (MOD_CONTROL, KeyCode::Char('y'), GlobalAction::Redo)
    } else if i == 8 {
        (MOD_CONTROL_SHIFT, KeyCode::Char('h'), GlobalAction::ToggleUndoPanel)
    } else if i == 9 {
        (MOD_CONTROL, KeyCode::Char('k'), GlobalAction::ToggleKeybindings)
    } else if i == 10 {
        (MOD_NONE, KeyCode::F(5), GlobalAction::ToggleRenderMode)
    } else if i == 11 {
        (MOD_NONE, KeyCode::F(11), GlobalAction::ToggleZenMode)
    } else if i == 12 {
        (MOD_NONE, KeyCode::Char('?'), GlobalAction::CycleDrawer)
    } else if i == 13 {
        (MOD_SHIFT, KeyCode::Char('?'), GlobalAction::CycleDrawer)
    } else if i == 14 {
        (MOD_NONE, KeyCode::Char('T'), GlobalAction::ToggleTimeline)
    } else if i == 15 {
        (MOD_SHIFT, KeyCode::Char('T'), GlobalAction::OpenTweenPanel)
    } else if i == 16 {
        (MOD_ALT, KeyCode::Left, GlobalAction::CycleTabPrev)
    } else if i == 17 {
        (MOD_ALT, KeyCode::Right, GlobalAction::CycleTabNext)
    } else if i == 18 {
        (MOD_NONE, KeyCode::Tab, GlobalAction::NextMode)
    } else if i == 19 {
        (MOD_SHIFT, KeyCode::Tab, GlobalAction::PrevMode)
    } else if i == 20 {
        (MOD_CONTROL, KeyCode::Tab, GlobalAction::NextMode)
    } else if i == 21 {
        (MOD_CONTROL_SHIFT, KeyCode::Tab, GlobalAction::PrevMode)
    } else if i == 22 {
        (MOD_NONE, KeyCode::Char('q'), GlobalAction::Quit)
    } else if i == 23 {
        (MOD_NONE, KeyCode::Char('Q'), GlobalAction::Quit)
    } else {
        (MOD_CONTROL, KeyCode::Char('q'), GlobalAction::Quit)
    };
    KeyDispatch { modifiers: KeyModifiers { bits: m }, key_code: k, action: a }
}

/// The number of global shortcuts the table holds.
pub open spec fn dispatch_len() -> int {
    25
}

/// The global shortcut table.
pub fn global_dispatch() -> (t: Vec<KeyDispatch>)
    ensures
        t@.len() == dispatch_len(),
        forall|i: int| 0 <= i < dispatch_len() ==> t@[i] == dispatch_at(i),
{
    let mut t: Vec<KeyDispatch> = Vec::new();
    let c = KeyModifiers { bits: MOD_CONTROL };
    let cs = KeyModifiers { bits: MOD_CONTROL_SHIFT };
    let n = KeyModifiers { bits: MOD_NONE };
    let s = KeyModifiers { bits: MOD_SHIFT };
    let a = KeyModifiers { bits: MOD_ALT };
    t.push(KeyDispatch { modifiers: c, key_code: KeyCode::Char('n'), action: GlobalAction::FileNew });
    t.push(KeyDispatch { modifiers: c, key_code: KeyCode::Char('o'), action: GlobalAction::FileOpen });
    t.push(KeyDispatch { modifiers: c, key_code: KeyCode::Char('s'), action: GlobalAction::FileSave });
    t.push(KeyDispatch { modifiers: cs, key_code: KeyCode::Char('s'), action: GlobalAction::FileSaveAs });
    t.push(KeyDispatch { modifiers: c, key_code: KeyCode::Char('e'), action: GlobalAction::Export });
    t.push(KeyDispatch { modifiers: c, key_code: KeyCode::Char('z'), action: GlobalAction::Undo });
    t.push(KeyDispatch { modifiers: cs, key_code: KeyCode::Char('z'), action: GlobalAction::Redo });
    t.push(KeyDispatch { modifiers: c, key_code: KeyCode::Char('y'), action: GlobalAction::Redo });
    t.push(KeyDispatch { modifiers: cs, key_code: KeyCode::Char('h'), action: GlobalAction::ToggleUndoPanel });
    t.push(KeyDispatch { modifiers: c, key_code: KeyCode::Char('k'), action: GlobalAction::ToggleKeybindings });
    t.push(KeyDispatch { modifiers: n, key_code: KeyCode::F(5), action: GlobalAction::ToggleRenderMode });
    t.push(KeyDispatch { modifiers: n, key_code: KeyCode::F(11), action: GlobalAction::ToggleZenMode });
    t.push(KeyDispatch { modifiers: n, key_code: KeyCode::Char('?'), action: GlobalAction::CycleDrawer });
    t.push(KeyDispatch { modifiers: s, key_code: KeyCode::Char('?'), action: GlobalAction::CycleDrawer });
    t.push(KeyDispatch { modifiers: n, key_code: KeyCode::Char('T'), action: GlobalAction::ToggleTimeline });
    t.push(KeyDispatch { modifiers: s, key_code: KeyCode::Char('T'), action: GlobalAction::OpenTweenPanel });
    t.push(KeyDispatch { modifiers: a, key_code: KeyCode::Left, action: GlobalAction::CycleTabPrev });
    t.push(KeyDispatch { modifiers: a, key_code: KeyCode::Right, action: GlobalAction::CycleTabNext });
    t.push(KeyDispatch { modifiers: n, key_code: KeyCode::Tab, action: GlobalAction::NextMode });
    t.push(KeyDispatch { modifiers: s, key_code: KeyCode::Tab, action: GlobalAction::PrevMode });
    t.push(KeyDispatch { modifiers: c, key_code: KeyCode::Tab, action: GlobalAction::NextMode });
    t.push(KeyDispatch { modifiers: cs, key_code: KeyCode::Tab, action: GlobalAction::PrevMode });
    t.push(KeyDispatch { modifiers: n, key_code: KeyCode::Char('q'), action: GlobalAction::Quit });
    t.push(KeyDispatch { modifiers: n, key_code: KeyCode::Char('Q'), action: GlobalAction::Quit });
    t.push(KeyDispatch { modifiers: c, key_code: KeyCode::Char('q'), action: GlobalAction::Quit });
    t
}

/// The action of the first shortcut among the first `n` whose key and
/// modifiers are exactly `code` and `modifiers`.
pub open spec fn first_binding(code: KeyCode, modifiers: KeyModifiers, n: int) -> Option<GlobalAction>
    decreases n,
{
    if n <= 0 {
        None
    } else {
        match first_binding(code, modifiers, n - 1) {
            Some(a) => Some(a),
            None => if dispatch_at(n - 1).key_code == code && dispatch_at(n - 1).modifiers == modifiers {
                Some(dispatch_at(n - 1).action)
            } else {
                None
            },
        }
    }
}

/// The index of the first shortcut among the first `n` for `action`.
pub open spec fn first_for(action: GlobalAction, n: int) -> Option<int>
    decreases n,
{
    if n <= 0 {
        None
    } else {
        match first_for(action, n - 1) {
            Some(i) => Some(i),
            None => if dispatch_at(n - 1).action == action {
                Some(n - 1)
            } else {
                None
            },
        }
    }
}

/// The global action bound to exactly these modifiers and key, if any.
pub fn lookup_global(code: KeyCode, modifiers: KeyModifiers) -> (r: Option<GlobalAction>)
    ensures
        r == first_binding(code, modifiers, dispatch_len()),
{
    let t = global_dispatch();
    let mut i: usize = 0;
    while i < t.len()
        invariant
            t@.len() == dispatch_len(),
            forall|j: int| 0 <= j < dispatch_len() ==> t@[j] == dispatch_at(j),
            i <= t@.len(),
            first_binding(code, modifiers, i as int) is None,
        decreases t@.len() - i,
    {
        let d = t[i];
        if d.key_code == code && d.modifiers == modifiers {
            proof {
                lemma_first_binding_rest(code, modifiers, i as int + 1, dispatch_len());
            }
            return Some(d.action);
        }
        i = i + 1;
    }
    None
}

proof fn lemma_first_binding_rest(code: KeyCode, modifiers: KeyModifiers, k: int, n: int)
    requires
        0 <= k <= n,
        first_binding(code, modifiers, k) is Some,
    ensures
        first_binding(code, modifiers, n) == first_binding(code, modifiers, k),
    decreases n - k,
{
    if k < n {
        lemma_first_binding_rest(code, modifiers, k, n - 1);
    }
}

proof fn lemma_first_for_rest(action: GlobalAction, k: int, n: int)
    requires
        0 <= k <= n,
        first_for(action, k) is Some,
    ensures
        first_for(action, n) == first_for(action, k),
    decreases n - k,
{
    if k < n {
        lemma_first_for_rest(action, k, n - 1);
    }
}

/// The name of a key as a shortcut shows it.
pub open spec fn key_text(code: KeyCode) -> Seq<char> {
    match code {
        KeyCode::Char(c) => seq![if 'a' <= c && c <= 'z' { ((c as u32) - 32) as char } else { c }],
        KeyCode::F(n) => seq!['F'] + decimal(n as nat),
        KeyCode::Tab => "Tab"@,
        KeyCode::Enter => "Enter"@,
        KeyCode::Esc => "Esc"@,
        KeyCode::Delete => "Delete"@,
        _ => key_name(code),
    }
}

/// The variant name of a key.
pub open spec fn key_name(code: KeyCode) -> Seq<char> {
    match code {
        KeyCode::Backspace => "Backspace"@,
        KeyCode::Enter => "Enter"@,
        KeyCode::Left => "Left"@,
        KeyCode::Right => "Right"@,
        KeyCode::Up => "Up"@,
        KeyCode::Down => "Down"@,
        KeyCode::Home => "Home"@,
        KeyCode::End => "End"@,
        KeyCode::PageUp => "PageUp"@,
        KeyCode::PageDown => "PageDown"@,
        KeyCode::Tab => "Tab"@,
        KeyCode::BackTab => "BackTab"@,
        KeyCode::Delete => "Delete"@,
        KeyCode::Insert => "Insert"@,
        KeyCode::F(_) => "F"@,
        KeyCode::Char(_) => "Char"@,
        KeyCode::Null => "Null"@,
        KeyCode::Esc => "Esc"@,
        KeyCode::CapsLock => "CapsLock"@,
        KeyCode::ScrollLock => "ScrollLock"@,
        KeyCode::NumLock => "NumLock"@,
        KeyCode::PrintScreen => "PrintScreen"@,
        KeyCode::Pause => "Pause"@,
        KeyCode::Menu => "Menu"@,
        KeyCode::KeypadBegin => "KeypadBegin"@,
        KeyCode::Other => "Other"@,
    }
}

fn key_name_str(code: KeyCode) -> (r: &'static str)
    ensures
        r@ == key_name(code),
{
    match code {
        KeyCode::Backspace => "Backspace",
        KeyCode::Enter => "Enter",
        KeyCode::Left => "Left",
        KeyCode::Right => "Right",
        KeyCode::Up => "Up",
        KeyCode::Down => "Down",
        KeyCode::Home => "Home",
        KeyCode::End => "End",
        KeyCode::PageUp => "PageUp",
        KeyCode::PageDown => "PageDown",
        KeyCode::Tab => "Tab",
        KeyCode::BackTab => "BackTab",
        KeyCode::Delete => "Delete",
        KeyCode::Insert => "Insert",
        KeyCode::F(_) => "F",
        KeyCode::Char(_) => "Char",
        KeyCode::Null => "Null",
        KeyCode::Esc => "Esc",
        KeyCode::CapsLock => "CapsLock",
        KeyCode::ScrollLock => "ScrollLock",
        KeyCode::NumLock => "NumLock",
        KeyCode::PrintScreen => "PrintScreen",
        KeyCode::Pause => "Pause",
        KeyCode::Menu => "Menu",
        KeyCode::KeypadBegin => "KeypadBegin",
        KeyCode::Other => "Other",
    }
}

/// A shortcut as text: the held modifiers among Ctrl, Alt and Shift, then
/// the key, joined by `+`.
pub open spec fn shortcut_text(modifiers: KeyModifiers, code: KeyCode) -> Seq<char> {
    let ctrl = modifiers.spec_contains(KeyModifiers { bits: MOD_CONTROL });
    let alt = modifiers.spec_contains(KeyModifiers { bits: MOD_ALT });
    let shift = modifiers.spec_contains(KeyModifiers { bits: MOD_SHIFT });
    (if ctrl { "Ctrl+"@ } else { Seq::empty() }) + (if alt { "Alt+"@ } else { Seq::empty() }) + (if shift { "Shift+"@ } else { Seq::empty() }) + key_text(code)
}

/// A shortcut as text: see `shortcut_text`.
pub fn format_shortcut(modifiers: KeyModifiers, code: KeyCode) -> (s: String)
    ensures
        s@ == shortcut_text(modifiers, code),
{
    let mut s = String::new();
    if modifiers.contains(KeyModifiers { bits: MOD_CONTROL }) {
        push_str(&mut s, "Ctrl+");
    }
    if modifiers.contains(KeyModifiers { bits: MOD_ALT }) {
        push_str(&mut s, "Alt+");
    }
    if modifiers.contains(KeyModifiers { bits: MOD_SHIFT }) {
        push_str(&mut s, "Shift+");
    }
    let ghost before = s@;
    match code {
        KeyCode::Char(c) => {
            let u = if 'a' <= c && c <= 'z' {
                match crate::text::char_from_u32((c as u32) - 32) {
                    Some(up) => up,
                    None => c,
                }
            } else {
                c
            };
            push_char(&mut s, u);
        },
        KeyCode::F(n) => {
            push_char(&mut s, 'F');
            push_decimal(&mut s, n as usize);
        },
        KeyCode::Tab => push_str(&mut s, "Tab"),
        KeyCode::Enter => push_str(&mut s, "Enter"),
        KeyCode::Esc => push_str(&mut s, "Esc"),
        KeyCode::Delete => push_str(&mut s, "Delete"),
        other => push_str(&mut s, key_name_str(other)),
    }
    proof {
        reveal_strlit("Ctrl+");
        reveal_strlit("Alt+");
        reveal_strlit("Shift+");
    }
    assert(s@ =~= shortcut_text(modifiers, code));
    s
}

/// The shortcut text of the first global shortcut for `action`, if any.
pub fn global_shortcut_label(action: GlobalAction) -> (r: Option<String>)
    ensures
        match first_for(action, dispatch_len()) {
            Some(i) => r is Some && r.unwrap()@ == shortcut_text(dispatch_at(i).modifiers, dispatch_at(i).key_code),
            None => r is None,
        },
{
    let t = global_dispatch();
    let mut i: usize = 0;
    while i < t.len()
        invariant
            t@.len() == dispatch_len(),
            forall|j: int| 0 <= j < dispatch_len() ==> t@[j] == dispatch_at(j),
            i <= t@.len(),
            first_for(action, i as int) is None,
        decreases t@.len() - i,
    {
        let d = t[i];
        if d.action == action {
            proof {
                lemma_first_for_rest(action, i as int + 1, dispatch_len());
            }
            return Some(format_shortcut(d.modifiers, d.key_code));
        }
        i = i + 1;
    }
    None
}

/// Where a key binding applies.
#[derive(Debug, Clone, Copy, PartialEq, Eq, Structural)]
pub enum Scope {
    Global,
    Canvas,
    LayerPanel,
    TextTool,
    FontOverview,
    FontCharEditor,
    Dialog,
    Timeline,
    Lighting,
}

impl Scope {
    pub open spec fn spec_label(self) -> Seq<char> {
        match self {
            Scope::Global => "Global"@,
            Scope::Canvas => "Canvas"@,
            Scope::LayerPanel => "Layer Panel"@,
            Scope::TextTool => "Text Tool"@,
            Scope::FontOverview => "Font Overview"@,
            Scope::FontCharEditor => "Font Char Editor"@,
            Scope::Dialog => "Dialog"@,
            Scope::Timeline => "Timeline"@,
            Scope::Lighting => "Lighting"@,
        }
    }

    /// The heading shown for the scope.
    pub fn label(self) -> (r: &'static str)
        ensures
            r@ == self.spec_label(),
    {
        match self {
            Scope::Global => "Global",
            Scope::Canvas => "Canvas",
            Scope::LayerPanel => "Layer Panel",
            Scope::TextTool => "Text Tool",
            Scope::FontOverview => "Font Overview",
            Scope::FontCharEditor => "Font Char Editor",
            Scope::Dialog => "Dialog",
            Scope::Timeline => "Timeline",
            Scope::Lighting => "Lighting",
        }
    }
}

/// A line of the key binding overview: the keys, where they apply and what
/// they do.
pub struct KeyBinding {
    pub keys: &'static str,
    pub scope: Scope,
    pub description: &'static str,
}


/// No two global shortcuts share a key and modifiers with different
/// actions: looking up the keys of any entry gives that entry's action, so
/// the shortcut shown for an action triggers it.
pub proof fn law_global_shortcuts_unambiguous(i: int)
    requires
        0 <= i < dispatch_len(),
    ensures
        first_binding(dispatch_at(i).key_code, dispatch_at(i).modifiers, dispatch_len()) == Some(dispatch_at(i).action),
{
    reveal_with_fuel(first_binding, 26);
    if i == 0 {
        assert(first_binding(dispatch_at(0).key_code, dispatch_at(0).modifiers, 25) == Some(dispatch_at(0).action));
    } else if i == 1 {
        assert(first_binding(dispatch_at(1).key_code, dispatch_at(1).modifiers, 25) == Some(dispatch_at(1).action));
    } else if i == 2 {
        assert(first_binding(dispatch_at(2).key_code, dispatch_at(2).modifiers, 25) == Some(dispatch_at(2).action));
    } else if i == 3 {
        assert(first_binding(dispatch_at(3).key_code, dispatch_at(3).modifiers, 25) == Some(dispatch_at(3).action));
    } else if i == 4 {
        assert(first_binding(dispatch_at(4).key_code, dispatch_at(4).modifiers, 25) == Some(dispatch_at(4).action));
    } else if i == 5 {
        assert(first_binding(dispatch_at(5).key_code, dispatch_at(5).modifiers, 25) == Some(dispatch_at(5).action));
    } else if i == 6 {
        assert(first_binding(dispatch_at(6).key_code, dispatch_at(6).modifiers, 25) == Some(dispatch_at(6).action));
    } else if i == 7 {
        assert(first_binding(dispatch_at(7).key_code, dispatch_at(7).modifiers, 25) == Some(dispatch_at(7).action));
    } else if i == 8 {
        assert(first_binding(dispatch_at(8).key_code, dispatch_at(8).modifiers, 25) == Some(dispatch_at(8).action));
    } else if i == 9 {
        assert(first_binding(dispatch_at(9).key_code, dispatch_at(9).modifiers, 25) == Some(dispatch_at(9).action));
    } else if i == 10 {
        assert(first_binding(dispatch_at(10).key_code, dispatch_at(10).modifiers, 25) == Some(dispatch_at(10).action));
    } else if i == 11 {
        assert(first_binding(dispatch_at(11).key_code, dispatch_at(11).modifiers, 25) == Some(dispatch_at(11).action));
    } else if i == 12 {
        assert(first_binding(dispatch_at(12).key_code, dispatch_at(12).modifiers, 25) == Some(dispatch_at(12).action));
    } else if i == 13 {
        assert(first_binding(dispatch_at(13).key_code, dispatch_at(13).modifiers, 25) == Some(dispatch_at(13).action));
    } else if i == 14 {
        assert(first_binding(dispatch_at(14).key_code, dispatch_at(14).modifiers, 25) == Some(dispatch_at(14).action));
    } else if i == 15 {
        assert(first_binding(dispatch_at(15).key_code, dispatch_at(15).modifiers, 25) == Some(dispatch_at(15).action));
    } else if i == 16 {
        assert(first_binding(dispatch_at(16).key_code, dispatch_at(16).modifiers, 25) == Some(dispatch_at(16).action));
    } else if i == 17 {
        assert(first_binding(dispatch_at(17).key_code, dispatch_at(17).modifiers, 25) == Some(dispatch_at(17).action));
    } else if i == 18 {
        assert(first_binding(dispatch_at(18).key_code, dispatch_at(18).modifiers, 25) == Some(dispatch_at(18).action));
    } else if i == 19 {
        assert(first_binding(dispatch_at(19).key_code, dispatch_at(19).modifiers, 25) == Some(dispatch_at(19).action));
    } else if i == 20 {
        assert(first_binding(dispatch_at(20).key_code, dispatch_at(20).modifiers, 25) == Some(dispatch_at(20).action));
    } else if i == 21 {
        assert(first_binding(dispatch_at(21).key_code, dispatch_at(21).modifiers, 25) == Some(dispatch_at(21).action));
    } else if i == 22 {
        assert(first_binding(dispatch_at(22).key_code, dispatch_at(22).modifiers, 25) == Some(dispatch_at(22).action));
    } else if i == 23 {
        assert(first_binding(dispatch_at(23).key_code, dispatch_at(23).modifiers, 25) == Some(dispatch_at(23).action));
    } else if i == 24 {
        assert(first_binding(dispatch_at(24).key_code, dispatch_at(24).modifiers, 25) == Some(dispatch_at(24).action));
    }
}


/// Every global action has a shortcut, so each has a label to show.
pub proof fn law_every_action_has_shortcut(action: GlobalAction)
    ensures
        first_for(action, dispatch_len()) is Some,
{
    reveal_with_fuel(first_for, 26);
}


/// The undo and redo shortcuts are the documented ones: a key undoes
/// exactly when it is Ctrl+Z, and redoes exactly when it is Ctrl+Shift+Z
/// or Ctrl+Y.
pub proof fn law_undo_redo_shortcuts(code: KeyCode, modifiers: KeyModifiers)
    ensures
        (first_binding(code, modifiers, dispatch_len()) == Some(GlobalAction::Undo)) <==> (code == KeyCode::Char('z')
            && modifiers == KeyModifiers { bits: MOD_CONTROL }),
        (first_binding(code, modifiers, dispatch_len()) == Some(GlobalAction::Redo)) <==> ((code == KeyCode::Char('z')
            && modifiers == KeyModifiers { bits: MOD_CONTROL_SHIFT }) || (code == KeyCode::Char('y') && modifiers
            == KeyModifiers { bits: MOD_CONTROL })),
{
    reveal_with_fuel(first_binding, 26);
}

/// The file and quit shortcuts are the documented ones: Ctrl+N new, Ctrl+O
/// open, Ctrl+S save, Ctrl+Shift+S save as, Ctrl+E export; q, Q and Ctrl+Q
/// quit, and no other key does any of these.
pub proof fn law_file_and_quit_shortcuts(code: KeyCode, modifiers: KeyModifiers)
    ensures
        (first_binding(code, modifiers, dispatch_len()) == Some(GlobalAction::FileNew)) <==> (code == KeyCode::Char('n')
            && modifiers == KeyModifiers { bits: MOD_CONTROL }),
        (first_binding(code, modifiers, dispatch_len()) == Some(GlobalAction::FileOpen)) <==> (code == KeyCode::Char('o')
            && modifiers == KeyModifiers { bits: MOD_CONTROL }),
        (first_binding(code, modifiers, dispatch_len()) == Some(GlobalAction::FileSave)) <==> (code == KeyCode::Char('s')
            && modifiers == KeyModifiers { bits: MOD_CONTROL }),
        (first_binding(code, modifiers, dispatch_len()) == Some(GlobalAction::FileSaveAs)) <==> (code == KeyCode::Char('s')
            && modifiers == KeyModifiers { bits: MOD_CONTROL_SHIFT }),
        (first_binding(code, modifiers, dispatch_len()) == Some(GlobalAction::Export)) <==> (code == KeyCode::Char('e')
            && modifiers == KeyModifiers { bits: MOD_CONTROL }),
        (first_binding(code, modifiers, dispatch_len()) == Some(GlobalAction::Quit)) <==> (((code == KeyCode::Char('q')
            || code == KeyCode::Char('Q')) && modifiers == KeyModifiers { bits: MOD_NONE }) || (code == KeyCode::Char('q')
            && modifiers == KeyModifiers { bits: MOD_CONTROL })),
{
    reveal_with_fuel(first_binding, 26);
}

/// The view and navigation shortcuts are the documented ones, and no other
/// key triggers them: Ctrl+Shift+H the undo panel, Ctrl+K the key
/// bindings, F5 the render mode, F11 zen mode, `?` (with or without Shift)
/// the drawer, T the timeline and Shift+T the tween panel, Alt+Left and
/// Alt+Right the tabs, Tab and Ctrl+Tab the next mode, Shift+Tab and
/// Ctrl+Shift+Tab the previous one.
pub proof fn law_view_shortcuts(code: KeyCode, modifiers: KeyModifiers)
    ensures
        (first_binding(code, modifiers, dispatch_len()) == Some(GlobalAction::ToggleUndoPanel)) <==> (code
            == KeyCode::Char('h') && modifiers == KeyModifiers { bits: MOD_CONTROL_SHIFT }),
        (first_binding(code, modifiers, dispatch_len()) == Some(GlobalAction::ToggleKeybindings)) <==> (code
            == KeyCode::Char('k') && modifiers == KeyModifiers { bits: MOD_CONTROL }),
        (first_binding(code, modifiers, dispatch_len()) == Some(GlobalAction::ToggleRenderMode)) <==> (code
            == KeyCode::F(5) && modifiers == KeyModifiers { bits: MOD_NONE }),
        (first_binding(code, modifiers, dispatch_len()) == Some(GlobalAction::ToggleZenMode)) <==> (code
            == KeyCode::F(11) && modifiers == KeyModifiers { bits: MOD_NONE }),
        (first_binding(code, modifiers, dispatch_len()) == Some(GlobalAction::CycleDrawer)) <==> (code
            == KeyCode::Char('?') && (modifiers == KeyModifiers { bits: MOD_NONE } || modifiers == KeyModifiers {
            bits: MOD_SHIFT,
        })),
        (first_binding(code, modifiers, dispatch_len()) == Some(GlobalAction::ToggleTimeline)) <==> (code
            == KeyCode::Char('T') && modifiers == KeyModifiers { bits: MOD_NONE }),
        (first_binding(code, modifiers, dispatch_len()) == Some(GlobalAction::OpenTweenPanel)) <==> (code
            == KeyCode::Char('T') && modifiers == KeyModifiers { bits: MOD_SHIFT }),
        (first_binding(code, modifiers, dispatch_len()) == Some(GlobalAction::CycleTabPrev)) <==> (code
            == KeyCode::Left && modifiers == KeyModifiers { bits: MOD_ALT }),
        (first_binding(code, modifiers, dispatch_len()) == Some(GlobalAction::CycleTabNext)) <==> (code
            == KeyCode::Right && modifiers == KeyModifiers { bits: MOD_ALT }),
        (first_binding(code, modifiers, dispatch_len()) == Some(GlobalAction::NextMode)) <==> (code == KeyCode::Tab
            && (modifiers == KeyModifiers { bits: MOD_NONE } || modifiers == KeyModifiers { bits: MOD_CONTROL })),
        (first_binding(code, modifiers, dispatch_len()) == Some(GlobalAction::PrevMode)) <==> (code == KeyCode::Tab
            && (modifiers == KeyModifiers { bits: MOD_SHIFT } || modifiers == KeyModifiers {
            bits: MOD_CONTROL_SHIFT,
        })),
{
    reveal_with_fuel(first_binding, 26);
}
} // verus!
